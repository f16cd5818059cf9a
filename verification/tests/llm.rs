use whatsapp_usb_bridge::llm::{LlmError, LlmMessage, LmStudioClient};
use whatsapp_usb_bridge::whatsapp::models::{ChatMessage, MessageDirection};

fn msg(text: &str, author: Option<&str>, dir: MessageDirection) -> ChatMessage {
    ChatMessage::new(text.to_string(), author.map(|a| a.to_string()), None, dir, None)
}

#[test]
fn client_defaults_and_endpoints() {
    let c = LmStudioClient::new(None, None);
    assert_eq!(c.base_url, "http://127.0.0.1:1234/v1");
    assert_eq!(c.model_name, "local-model");
    let d = LmStudioClient::default();
    assert_eq!((d.base_url.as_str(), d.model_name.as_str()), ("http://127.0.0.1:1234/v1", "local-model"));
    let c = LmStudioClient::new(Some("http://h:1/v1//".into()), Some("m".into()));
    assert_eq!(c.model_name, "m");
    assert_eq!(c.chat_completions_endpoint(), "http://h:1/v1/chat/completions");
    assert_eq!(c.models_endpoint(), "http://h:1/v1/models");
}

#[test]
fn first_choice_is_trimmed() {
    assert_eq!(LmStudioClient::first_choice(&vec!["  hi \n".into(), "other".into()]), Ok("hi".to_string()));
    assert_eq!(LmStudioClient::first_choice(&vec![]), Err(LlmError::NoChoices));
}

#[test]
fn reply_prompt() {
    let c = LmStudioClient::default();
    let h = vec![
        msg("Hola", None, MessageDirection::Incoming),
        msg("Qué tal", None, MessageDirection::Outgoing),
        msg("Eh", Some("Pedro"), MessageDirection::Incoming),
        msg("?", None, MessageDirection::Unknown),
    ];
    let r = c.generate_reply("Ana", &h, None);
    assert_eq!(r.len(), 2);
    assert_eq!(r[0].role, "system");
    assert!(r[0].content.starts_with("Eres un asistente inteligente que redacta respuestas para WhatsApp en español. Mantén"));
    assert_eq!(r[1].role, "user");
    assert_eq!(
        r[1].content,
        "Conversación de WhatsApp con: Ana\nHistorial reciente:\nContacto: Hola\nYo: Qué tal\nPedro: Eh\nMensaje: ?\n\nPor favor redacta la respuesta adecuada para responder al último mensaje recibido:\n"
    );
    let r = c.generate_reply("Ana", &[], Some("sé breve"));
    assert_eq!(r[1].content, "Conversación de WhatsApp con: Ana\nHistorial reciente:\n\nInstrucción adicional para la respuesta: sé breve\n");
}

#[test]
fn summary_prompt() {
    let c = LmStudioClient::default();
    let h = vec![
        msg("x", Some("Pedro"), MessageDirection::Incoming),
        msg("y", None, MessageDirection::Outgoing),
        msg("z", None, MessageDirection::Incoming),
    ];
    let r = c.summarize_chat("Grupo", &h);
    assert_eq!(r[0].role, "system");
    assert_eq!(r[0].content, "Eres un asistente que analiza conversaciones y grupos de WhatsApp en español. Tu objetivo es proporcionar un resumen claro, con viñetas de los puntos clave discutidos y quién dijo qué.");
    assert_eq!(
        r[1].content,
        "Grupo/Chat: Grupo\nHistorial de mensajes:\nPedro: x\nYo: y\nParticipante: z\n\nResume los temas principales tratados en esta conversación:"
    );
}

#[test]
fn message_constructors() {
    let s = LlmMessage::system("a");
    assert_eq!((s.role.as_str(), s.content.as_str()), ("system", "a"));
    let u = LlmMessage::user("b".to_string());
    assert_eq!((u.role.as_str(), u.content.as_str()), ("user", "b"));
}
