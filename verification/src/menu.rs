//! The choices of the console menus, read from what the user typed.
use vstd::prelude::*;
use crate::text::{chars_of, eq_ignore_ascii_case, eq_ignore_ascii_case_exec, eq_str, parse_usize, parse_usize_exec, string_of};

verus! {

/// The main menu.
#[derive(Debug, Clone, Copy, PartialEq, Eq, Structural)]
pub enum MainAction {
    ReadWhatsApp,
    SendMessage,
    AssistantChat,
    Exit,
    Invalid,
}

/// The "read WhatsApp" menu.
#[derive(Debug, Clone, Copy, PartialEq, Eq, Structural)]
pub enum ReadAction {
    RecentChats,
    SearchByName,
    FromContacts,
    Back,
}

/// The actions inside an open chat.
#[derive(Debug, Clone, Copy, PartialEq, Eq, Structural)]
pub enum ChatAction {
    Write,
    ScrollUp,
    Refresh,
    SuggestReply,
    Summarize,
    Leave,
    /// Anything else: the chat is shown again.
    Stay,
}

/// What to do with a suggested reply.
#[derive(Debug, Clone, Copy, PartialEq, Eq, Structural)]
pub enum SuggestionAction {
    Send,
    Edit,
    Discard,
}

/// The "send a message" menu.
#[derive(Debug, Clone, Copy, PartialEq, Eq, Structural)]
pub enum SendAction {
    FromContacts,
    ByName,
    ByNumber,
    Back,
}

pub open spec fn main_action_of(input: Seq<char>) -> MainAction {
    if input == "1"@ {
        MainAction::ReadWhatsApp
    } else if input == "2"@ {
        MainAction::SendMessage
    } else if input == "3"@ {
        MainAction::AssistantChat
    } else if input == "0"@ {
        MainAction::Exit
    } else {
        MainAction::Invalid
    }
}

pub open spec fn read_action_of(input: Seq<char>) -> ReadAction {
    if input == "1"@ {
        ReadAction::RecentChats
    } else if input == "2"@ {
        ReadAction::SearchByName
    } else if input == "3"@ {
        ReadAction::FromContacts
    } else {
        ReadAction::Back
    }
}

pub open spec fn chat_action_of(input: Seq<char>) -> ChatAction {
    if input == "1"@ {
        ChatAction::Write
    } else if input == "2"@ {
        ChatAction::ScrollUp
    } else if input == "3"@ {
        ChatAction::Refresh
    } else if input == "4"@ {
        ChatAction::SuggestReply
    } else if input == "5"@ {
        ChatAction::Summarize
    } else if input == "0"@ || input.len() == 0 {
        ChatAction::Leave
    } else {
        ChatAction::Stay
    }
}

pub open spec fn suggestion_action_of(input: Seq<char>) -> SuggestionAction {
    if input == "1"@ {
        SuggestionAction::Send
    } else if input == "2"@ {
        SuggestionAction::Edit
    } else {
        SuggestionAction::Discard
    }
}

pub open spec fn send_action_of(input: Seq<char>) -> SendAction {
    if input == "1"@ {
        SendAction::FromContacts
    } else if input == "2"@ {
        SendAction::ByName
    } else if input == "3"@ {
        SendAction::ByNumber
    } else {
        SendAction::Back
    }
}

/// The list position that a number typed from 1 to `count` picks.
pub open spec fn chosen_index(input: Seq<char>, count: nat) -> Option<nat> {
    match parse_usize(input) {
        Some(n) => if 1 <= n <= count {
            Some((n - 1) as nat)
        } else {
            None
        },
        None => None,
    }
}

pub fn main_action(input: &str) -> (r: MainAction)
    ensures
        r == main_action_of(input@),
{
    let v = chars_of(input);
    if eq_str(&v, "1") {
        MainAction::ReadWhatsApp
    } else if eq_str(&v, "2") {
        MainAction::SendMessage
    } else if eq_str(&v, "3") {
        MainAction::AssistantChat
    } else if eq_str(&v, "0") {
        MainAction::Exit
    } else {
        MainAction::Invalid
    }
}

pub fn read_action(input: &str) -> (r: ReadAction)
    ensures
        r == read_action_of(input@),
{
    let v = chars_of(input);
    if eq_str(&v, "1") {
        ReadAction::RecentChats
    } else if eq_str(&v, "2") {
        ReadAction::SearchByName
    } else if eq_str(&v, "3") {
        ReadAction::FromContacts
    } else {
        ReadAction::Back
    }
}

pub fn chat_action(input: &str) -> (r: ChatAction)
    ensures
        r == chat_action_of(input@),
{
    let v = chars_of(input);
    if eq_str(&v, "1") {
        ChatAction::Write
    } else if eq_str(&v, "2") {
        ChatAction::ScrollUp
    } else if eq_str(&v, "3") {
        ChatAction::Refresh
    } else if eq_str(&v, "4") {
        ChatAction::SuggestReply
    } else if eq_str(&v, "5") {
        ChatAction::Summarize
    } else if eq_str(&v, "0") || v.len() == 0 {
        ChatAction::Leave
    } else {
        ChatAction::Stay
    }
}

pub fn suggestion_action(input: &str) -> (r: SuggestionAction)
    ensures
        r == suggestion_action_of(input@),
{
    let v = chars_of(input);
    if eq_str(&v, "1") {
        SuggestionAction::Send
    } else if eq_str(&v, "2") {
        SuggestionAction::Edit
    } else {
        SuggestionAction::Discard
    }
}

pub fn send_action(input: &str) -> (r: SendAction)
    ensures
        r == send_action_of(input@),
{
    let v = chars_of(input);
    if eq_str(&v, "1") {
        SendAction::FromContacts
    } else if eq_str(&v, "2") {
        SendAction::ByName
    } else if eq_str(&v, "3") {
        SendAction::ByNumber
    } else {
        SendAction::Back
    }
}

/// The list position picked by typing its number (from 1), if in range.
pub fn chosen_chat(input: &str, count: usize) -> (r: Option<usize>)
    ensures
        match chosen_index(input@, count as nat) {
            Some(i) => r == Some(i as usize),
            None => r is None,
        },
{
    let v = chars_of(input);
    match parse_usize_exec(&v) {
        Some(n) => if 1 <= n && n <= count {
            Some(n - 1)
        } else {
            None
        },
        None => None,
    }
}

/// Whether the assistant prompt asks to leave: `0`, `salir` or `volver` in any case.
pub fn is_exit_word(prompt: &str) -> (r: bool)
    ensures
        r == (prompt@ == "0"@ || eq_ignore_ascii_case(prompt@, "salir"@) || eq_ignore_ascii_case(
            prompt@,
            "volver"@,
        )),
{
    let v = chars_of(prompt);
    eq_str(&v, "0") || eq_ignore_ascii_case_exec(&v, "salir") || eq_ignore_ascii_case_exec(&v, "volver")
}

/// The instruction given for a suggested reply; none when left empty.
pub fn optional_instruction(input: &str) -> (r: Option<String>)
    ensures
        input@.len() == 0 ==> r is None,
        input@.len() > 0 ==> (r matches Some(s) && s@ == input@),
{
    let v = chars_of(input);
    if v.len() == 0 {
        None
    } else {
        Some(string_of(&v))
    }
}

} // verus!
