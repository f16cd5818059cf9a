//! State and choices of the contact picker and of the side panel.
use vstd::prelude::*;
use crate::contacts::Contact;
use crate::text::{chars_of, eq_ignore_ascii_case, eq_ignore_ascii_case_exec, eq_str, parse_usize, parse_usize_exec, string_of, append_str};
use crate::adb::{opt_view, owned};
use crate::whatsapp::models::{ChatMessage, MessageDirection};

verus! {

/// Contacts listed at a time by the picker.
pub const DISPLAY_LIMIT: usize = 20;

/// The contact picker of the console.
pub struct ContactsView;

/// What the user's input means to the picker.
#[derive(Debug, Clone, PartialEq, Eq)]
pub enum ContactPick {
    /// `0`, `cancelar` or `volver`: leave without a contact.
    Cancel,
    /// The contact at this position of the filtered list.
    Chosen(usize),
    /// A number outside the listed range.
    OutOfRange,
    /// Any other text becomes the new filter.
    Filter(String),
}

/// How many of the filtered contacts are listed.
pub open spec fn shown(filtered_len: nat) -> nat {
    if filtered_len < 20 {
        filtered_len
    } else {
        20
    }
}

pub open spec fn is_cancel(input: Seq<char>) -> bool {
    input == "0"@ || eq_ignore_ascii_case(input, "cancelar"@) || eq_ignore_ascii_case(
        input,
        "volver"@,
    )
}

impl ContactsView {
    /// How many of the filtered contacts are listed.
    pub fn shown_count(filtered_len: usize) -> (r: usize)
        ensures
            r == shown(filtered_len as nat),
    {
        if filtered_len < DISPLAY_LIMIT {
            filtered_len
        } else {
            DISPLAY_LIMIT
        }
    }

    /// What the picker does with `input` when `filtered_len` contacts match.
    pub fn pick(filtered_len: usize, input: &str) -> (r: ContactPick)
        ensures
            is_cancel(input@) ==> r == ContactPick::Cancel,
            !is_cancel(input@) ==> match parse_usize(input@) {
                Some(n) => if 1 <= n <= shown(filtered_len as nat) {
                    r == ContactPick::Chosen((n - 1) as usize)
                } else {
                    r == ContactPick::OutOfRange
                },
                None => r matches ContactPick::Filter(f) && f@ == input@,
            },
    {
        let v = chars_of(input);
        if eq_str(&v, "0") || eq_ignore_ascii_case_exec(&v, "cancelar") || eq_ignore_ascii_case_exec(
            &v,
            "volver",
        ) {
            return ContactPick::Cancel;
        }
        match parse_usize_exec(&v) {
            Some(n) => {
                if 1 <= n && n <= Self::shown_count(filtered_len) {
                    ContactPick::Chosen(n - 1)
                } else {
                    ContactPick::OutOfRange
                }
            },
            None => ContactPick::Filter(string_of(&v)),
        }
    }
}

/// The label a conversation line starts with in the console: the author of an
/// incoming message (`Mensaje` when unknown), `Tú` for one's own, none otherwise.
pub open spec fn chat_tag(author: Option<Seq<char>>, direction: MessageDirection) -> Option<Seq<char>> {
    match direction {
        MessageDirection::Incoming => Some(
            "◀ ["@ + (match author {
                Some(a) => a,
                None => "Mensaje"@,
            }) + "]"@,
        ),
        MessageDirection::Outgoing => Some("▶ [Tú]"@),
        MessageDirection::Unknown => None,
    }
}

/// The console label of a chat message.
pub fn chat_line_tag(m: &ChatMessage) -> (r: Option<String>)
    ensures
        match chat_tag(opt_view(m.author), m.direction) {
            Some(t) => r matches Some(s) && s@ == t,
            None => r is None,
        },
{
    match m.direction {
        MessageDirection::Incoming => {
            let mut v = chars_of("◀ [");
            match &m.author {
                Some(a) => append_str(&mut v, a.as_str()),
                None => append_str(&mut v, "Mensaje"),
            }
            append_str(&mut v, "]");
            Some(string_of(&v))
        },
        MessageDirection::Outgoing => Some(owned("▶ [Tú]")),
        MessageDirection::Unknown => None,
    }
}

/// What the side panel shows and holds between frames.
#[derive(Debug, Clone)]
pub struct SidePanelState {
    pub message_input: String,
    pub contact_search: String,
    pub selected_contact: Option<Contact>,
    pub llm_prompt: String,
    pub llm_response: String,
    pub is_llm_loading: bool,
    pub status_message: String,
}

impl Default for SidePanelState {
    fn default() -> (s: Self)
        ensures
            s.message_input@.len() == 0,
            s.contact_search@.len() == 0,
            s.selected_contact is None,
            s.llm_prompt@.len() == 0,
            s.llm_response@.len() == 0,
            !s.is_llm_loading,
            s.status_message@ == "Listo"@,
    {
        SidePanelState {
            message_input: String::new(),
            contact_search: String::new(),
            selected_contact: None,
            llm_prompt: String::new(),
            llm_response: String::new(),
            is_llm_loading: false,
            status_message: owned("Listo"),
        }
    }
}

impl SidePanelState {
    /// After a send: on success the input is cleared and the status says so;
    /// on failure the status shows the error and the input is kept.
    pub fn record_send(&mut self, outcome: Result<(), String>, to_contact: bool)
        ensures
            final(self).contact_search == old(self).contact_search,
            final(self).selected_contact == old(self).selected_contact,
            final(self).llm_response == old(self).llm_response,
            match outcome {
                Ok(()) => final(self).message_input@.len() == 0 && final(self).status_message@ == (
                if to_contact {
                    "Mensaje enviado a contacto."@
                } else {
                    "Mensaje enviado."@
                }),
                Err(e) => final(self).message_input == old(self).message_input
                    && final(self).status_message@ == "Error: "@ + e@,
            },
    {
        match outcome {
            Ok(()) => {
                self.status_message = if to_contact {
                    owned("Mensaje enviado a contacto.")
                } else {
                    owned("Mensaje enviado.")
                };
                self.message_input = String::new();
            },
            Err(e) => {
                let mut s = chars_of("Error: ");
                append_str(&mut s, e.as_str());
                self.status_message = string_of(&s);
            },
        }
    }

    /// After asking for a reply: it goes into the input box, or the error into the status.
    pub fn record_reply(&mut self, outcome: Result<String, String>)
        ensures
            final(self).contact_search == old(self).contact_search,
            final(self).selected_contact == old(self).selected_contact,
            final(self).llm_response == old(self).llm_response,
            match outcome {
                Ok(reply) => final(self).message_input == reply && final(self).status_message@
                    == "Respuesta generada en el cuadro de texto."@,
                Err(e) => final(self).message_input == old(self).message_input
                    && final(self).status_message@ == "Error LM Studio: "@ + e@,
            },
    {
        match outcome {
            Ok(reply) => {
                self.message_input = reply;
                self.status_message = owned("Respuesta generada en el cuadro de texto.");
            },
            Err(e) => {
                let mut s = chars_of("Error LM Studio: ");
                append_str(&mut s, e.as_str());
                self.status_message = string_of(&s);
            },
        }
    }

    /// After asking for a summary: it is shown under the panel, or the error in the status.
    pub fn record_summary(&mut self, outcome: Result<String, String>)
        ensures
            final(self).contact_search == old(self).contact_search,
            final(self).selected_contact == old(self).selected_contact,
            final(self).message_input == old(self).message_input,
            match outcome {
                Ok(summary) => final(self).llm_response == summary && final(self).status_message@
                    == "Resumen generado."@,
                Err(e) => final(self).llm_response == old(self).llm_response
                    && final(self).status_message@ == "Error LM Studio: "@ + e@,
            },
    {
        match outcome {
            Ok(summary) => {
                self.llm_response = summary;
                self.status_message = owned("Resumen generado.");
            },
            Err(e) => {
                let mut s = chars_of("Error LM Studio: ");
                append_str(&mut s, e.as_str());
                self.status_message = string_of(&s);
            },
        }
    }
}

} // verus!
