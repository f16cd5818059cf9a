//! The LM Studio assistant: its endpoints and the prompts sent to it about a chat.
use vstd::prelude::*;
use crate::adb::{opt_view, owned};
use crate::text::{append, append_str, chars_of, string_of, trim, trim_exec};
use crate::whatsapp::models::{ChatMessage, MessageDirection};
use crate::whatsapp::reader::{message_view, message_views, MessageView};

verus! {

/// One message of a chat-completion request.
#[derive(Debug, Clone)]
pub struct LlmMessage {
    pub role: String,
    pub content: String,
}

impl LlmMessage {
    pub fn system(content: &str) -> (m: Self)
        ensures
            m.role@ == "system"@,
            m.content@ == content@,
    {
        LlmMessage { role: owned("system"), content: owned(content) }
    }

    pub fn user(content: String) -> (m: Self)
        ensures
            m.role@ == "user"@,
            m.content == content,
    {
        LlmMessage { role: owned("user"), content }
    }
}

/// Why a completion gave no reply.
#[derive(Debug, Clone, PartialEq, Eq)]
pub enum LlmError {
    /// The response held no choice.
    NoChoices,
}

/// An LM Studio server and the model to ask.
#[derive(Debug, Clone)]
pub struct LmStudioClient {
    pub base_url: String,
    pub model_name: String,
}

pub open spec fn default_base_url() -> Seq<char> {
    "http://127.0.0.1:1234/v1"@
}

pub open spec fn default_model() -> Seq<char> {
    "local-model"@
}

/// `s` without the trailing slashes (`trim_end_matches('/')`).
pub open spec fn strip_slashes(s: Seq<char>) -> Seq<char>
    decreases s.len(),
{
    if s.len() > 0 && s.last() == '/' {
        strip_slashes(s.drop_last())
    } else {
        s
    }
}

pub open spec fn reply_system_prompt() -> Seq<char> {
    "Eres un asistente inteligente que redacta respuestas para WhatsApp en español. Mantén un tono conciso, natural y directo, acorde a una conversación de mensajería instantánea. Devuelve ÚNICAMENTE el texto que el usuario va a enviar, sin explicaciones ni comillas adicionales."@
}

pub open spec fn summary_system_prompt() -> Seq<char> {
    "Eres un asistente que analiza conversaciones y grupos de WhatsApp en español. Tu objetivo es proporcionar un resumen claro, con viñetas de los puntos clave discutidos y quién dijo qué."@
}

/// A message as a line of the reply prompt.
pub open spec fn reply_line(m: MessageView) -> Seq<char> {
    match m.direction {
        MessageDirection::Incoming => (match m.author {
            Some(a) => a,
            None => "Contacto"@,
        }) + ": "@ + m.text + "\n"@,
        MessageDirection::Outgoing => "Yo: "@ + m.text + "\n"@,
        MessageDirection::Unknown => "Mensaje: "@ + m.text + "\n"@,
    }
}

/// A message as a line of the summary prompt.
pub open spec fn summary_line(m: MessageView) -> Seq<char> {
    (match m.author {
        Some(a) => a,
        None => if m.direction == MessageDirection::Outgoing {
            "Yo"@
        } else {
            "Participante"@
        },
    }) + ": "@ + m.text + "\n"@
}

pub open spec fn reply_lines(h: Seq<MessageView>) -> Seq<char>
    decreases h.len(),
{
    if h.len() == 0 {
        Seq::empty()
    } else {
        reply_lines(h.drop_last()) + reply_line(h.last())
    }
}

pub open spec fn summary_lines(h: Seq<MessageView>) -> Seq<char>
    decreases h.len(),
{
    if h.len() == 0 {
        Seq::empty()
    } else {
        summary_lines(h.drop_last()) + summary_line(h.last())
    }
}

/// The user prompt asking for a reply in the chat.
pub open spec fn reply_prompt(title: Seq<char>, h: Seq<MessageView>, instruction: Option<Seq<char>>) -> Seq<
    char,
> {
    "Conversación de WhatsApp con: "@ + title + "\nHistorial reciente:\n"@ + reply_lines(h) + (
    match instruction {
        Some(i) => "\nInstrucción adicional para la respuesta: "@ + i + "\n"@,
        None => "\nPor favor redacta la respuesta adecuada para responder al último mensaje recibido:\n"@,
    })
}

/// The user prompt asking for a summary of the chat.
pub open spec fn summary_prompt(title: Seq<char>, h: Seq<MessageView>) -> Seq<char> {
    "Grupo/Chat: "@ + title + "\nHistorial de mensajes:\n"@ + summary_lines(h)
        + "\nResume los temas principales tratados en esta conversación:"@
}

/// The two messages of a request: a system prompt, then a user prompt.
pub open spec fn is_request(r: Seq<LlmMessage>, system: Seq<char>, user: Seq<char>) -> bool {
    &&& r.len() == 2
    &&& r[0].role@ == "system"@
    &&& r[0].content@ == system
    &&& r[1].role@ == "user"@
    &&& r[1].content@ == user
}

/// `s` without its trailing slashes.
fn strip_slashes_exec(s: &Vec<char>) -> (r: Vec<char>)
    ensures
        r@ == strip_slashes(s@),
{
    let mut n: usize = s.len();
    assert(s@.take(n as int) =~= s@);
    while n > 0 && s[n - 1] == '/'
        invariant
            n <= s.len(),
            strip_slashes(s@) == strip_slashes(s@.take(n as int)),
        decreases n,
    {
        assert(s@.take(n as int).drop_last() =~= s@.take(n - 1));
        n -= 1;
    }
    crate::text::slice(s, 0, n)
}

impl LmStudioClient {
    /// A client on `base_url` and `model_name`, by default the local server and `local-model`.
    pub fn new(base_url: Option<String>, model_name: Option<String>) -> (c: Self)
        ensures
            c.base_url@ == (match base_url {
                Some(u) => u@,
                None => default_base_url(),
            }),
            c.model_name@ == (match model_name {
                Some(m) => m@,
                None => default_model(),
            }),
    {
        LmStudioClient {
            base_url: match base_url {
                Some(u) => u,
                None => owned("http://127.0.0.1:1234/v1"),
            },
            model_name: match model_name {
                Some(m) => m,
                None => owned("local-model"),
            },
        }
    }

    /// The endpoint that lists models (asked to tell whether the server is up).
    pub fn models_endpoint(&self) -> (r: String)
        ensures
            r@ == strip_slashes(self.base_url@) + "/models"@,
    {
        let mut v = strip_slashes_exec(&chars_of(self.base_url.as_str()));
        append_str(&mut v, "/models");
        string_of(&v)
    }

    /// The chat-completion endpoint.
    pub fn chat_completions_endpoint(&self) -> (r: String)
        ensures
            r@ == strip_slashes(self.base_url@) + "/chat/completions"@,
    {
        let mut v = strip_slashes_exec(&chars_of(self.base_url.as_str()));
        append_str(&mut v, "/chat/completions");
        string_of(&v)
    }

    /// The reply of a completion: the first choice's content, trimmed.
    pub fn first_choice(contents: &Vec<String>) -> (r: Result<String, LlmError>)
        ensures
            contents@.len() == 0 ==> r == Err::<String, LlmError>(LlmError::NoChoices),
            contents@.len() > 0 ==> (r matches Ok(s) && s@ == trim(contents@[0]@)),
    {
        if contents.len() == 0 {
            Err(LlmError::NoChoices)
        } else {
            let v = chars_of(contents[0].as_str());
            Ok(string_of(&trim_exec(&v)))
        }
    }

    /// The request for a reply to the chat `chat_title`: the history, then the
    /// given instruction or a request to answer the last message.
    pub fn generate_reply(
        &self,
        chat_title: &str,
        history: &[ChatMessage],
        custom_instruction: Option<&str>,
    ) -> (r: Vec<LlmMessage>)
        ensures
            is_request(
                r@,
                reply_system_prompt(),
                reply_prompt(
                    chat_title@,
                    message_views(history@),
                    match custom_instruction {
                        Some(i) => Some(i@),
                        None => None,
                    },
                ),
            ),
    {
        let mut ctx = chars_of("Conversación de WhatsApp con: ");
        append_str(&mut ctx, chat_title);
        append_str(&mut ctx, "\nHistorial reciente:\n");
        let ghost head = ctx@;
        let ghost h = message_views(history@);
        let mut i: usize = 0;
        while i < history.len()
            invariant
                i <= history@.len(),
                h == message_views(history@),
                ctx@ == head + reply_lines(h.take(i as int)),
            decreases history.len() - i,
        {
            let m = &history[i];
            assert(h.take(i + 1).drop_last() =~= h.take(i as int));
            assert(h.take(i + 1).last() == message_view(*m));
            match m.direction {
                MessageDirection::Incoming => {
                    match &m.author {
                        Some(a) => append_str(&mut ctx, a.as_str()),
                        None => append_str(&mut ctx, "Contacto"),
                    }
                    append_str(&mut ctx, ": ");
                },
                MessageDirection::Outgoing => append_str(&mut ctx, "Yo: "),
                MessageDirection::Unknown => append_str(&mut ctx, "Mensaje: "),
            }
            append_str(&mut ctx, m.text.as_str());
            append_str(&mut ctx, "\n");
            assert(ctx@ =~= head + reply_lines(h.take(i as int)) + reply_line(message_view(*m)));
            i += 1;
        }
        assert(h.take(history.len() as int) =~= h);
        match custom_instruction {
            Some(ins) => {
                append_str(&mut ctx, "\nInstrucción adicional para la respuesta: ");
                append_str(&mut ctx, ins);
                append_str(&mut ctx, "\n");
            },
            None => {
                append_str(
                    &mut ctx,
                    "\nPor favor redacta la respuesta adecuada para responder al último mensaje recibido:\n",
                );
            },
        }
        let mut r: Vec<LlmMessage> = Vec::new();
        r.push(
            LlmMessage::system(
                "Eres un asistente inteligente que redacta respuestas para WhatsApp en español. Mantén un tono conciso, natural y directo, acorde a una conversación de mensajería instantánea. Devuelve ÚNICAMENTE el texto que el usuario va a enviar, sin explicaciones ni comillas adicionales.",
            ),
        );
        r.push(LlmMessage::user(string_of(&ctx)));
        proof {
            let ins = match custom_instruction {
                Some(i) => Some(i@),
                None => None,
            };
            assert(ctx@ =~= reply_prompt(chat_title@, h, ins));
        }
        r
    }

    /// The request for a summary of the chat `chat_title`: who said what.
    pub fn summarize_chat(&self, chat_title: &str, history: &[ChatMessage]) -> (r: Vec<LlmMessage>)
        ensures
            is_request(
                r@,
                summary_system_prompt(),
                summary_prompt(chat_title@, message_views(history@)),
            ),
    {
        let mut ctx = chars_of("Grupo/Chat: ");
        append_str(&mut ctx, chat_title);
        append_str(&mut ctx, "\nHistorial de mensajes:\n");
        let ghost head = ctx@;
        let ghost h = message_views(history@);
        let mut i: usize = 0;
        while i < history.len()
            invariant
                i <= history@.len(),
                h == message_views(history@),
                ctx@ == head + summary_lines(h.take(i as int)),
            decreases history.len() - i,
        {
            let m = &history[i];
            assert(h.take(i + 1).drop_last() =~= h.take(i as int));
            assert(h.take(i + 1).last() == message_view(*m));
            match &m.author {
                Some(a) => append_str(&mut ctx, a.as_str()),
                None => {
                    if m.direction == MessageDirection::Outgoing {
                        append_str(&mut ctx, "Yo");
                    } else {
                        append_str(&mut ctx, "Participante");
                    }
                },
            }
            append_str(&mut ctx, ": ");
            append_str(&mut ctx, m.text.as_str());
            append_str(&mut ctx, "\n");
            assert(ctx@ =~= head + summary_lines(h.take(i as int)) + summary_line(message_view(*m)));
            i += 1;
        }
        assert(h.take(history.len() as int) =~= h);
        append_str(&mut ctx, "\nResume los temas principales tratados en esta conversación:");
        let mut r: Vec<LlmMessage> = Vec::new();
        r.push(
            LlmMessage::system(
                "Eres un asistente que analiza conversaciones y grupos de WhatsApp en español. Tu objetivo es proporcionar un resumen claro, con viñetas de los puntos clave discutidos y quién dijo qué.",
            ),
        );
        r.push(LlmMessage::user(string_of(&ctx)));
        assert(ctx@ =~= summary_prompt(chat_title@, h));
        r
    }
}

/// The local server and model.
impl Default for LmStudioClient {
    fn default() -> (c: Self)
        ensures
            c.base_url@ == default_base_url(),
            c.model_name@ == default_model(),
    {
        LmStudioClient { base_url: owned("http://127.0.0.1:1234/v1"), model_name: owned("local-model") }
    }
}

} // verus!
