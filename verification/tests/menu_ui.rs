use whatsapp_usb_bridge::ui::chat_line_tag;
use whatsapp_usb_bridge::whatsapp::models::{ChatMessage, MessageDirection};
use whatsapp_usb_bridge::menu::{
    chat_action, chosen_chat, is_exit_word, main_action, optional_instruction, read_action, send_action,
    suggestion_action, ChatAction, MainAction, ReadAction, SendAction, SuggestionAction,
};
use whatsapp_usb_bridge::screen::{classify_touch, frame_interval_ms, TouchGesture};
use whatsapp_usb_bridge::ui::{ContactPick, ContactsView, SidePanelState};

#[test]
fn menus() {
    assert_eq!(main_action("1"), MainAction::ReadWhatsApp);
    assert_eq!(main_action("2"), MainAction::SendMessage);
    assert_eq!(main_action("3"), MainAction::AssistantChat);
    assert_eq!(main_action("0"), MainAction::Exit);
    assert_eq!(main_action("x"), MainAction::Invalid);
    assert_eq!(read_action("3"), ReadAction::FromContacts);
    assert_eq!(read_action(""), ReadAction::Back);
    assert_eq!(chat_action(""), ChatAction::Leave);
    assert_eq!(chat_action("0"), ChatAction::Leave);
    assert_eq!(chat_action("5"), ChatAction::Summarize);
    assert_eq!(chat_action("9"), ChatAction::Stay);
    assert_eq!(suggestion_action("2"), SuggestionAction::Edit);
    assert_eq!(suggestion_action("x"), SuggestionAction::Discard);
    assert_eq!(send_action("3"), SendAction::ByNumber);
    assert_eq!(send_action("7"), SendAction::Back);
}

#[test]
fn chat_selection() {
    assert_eq!(chosen_chat("2", 3), Some(1));
    assert_eq!(chosen_chat("4", 3), None);
    assert_eq!(chosen_chat("0", 3), None);
    assert_eq!(chosen_chat("abc", 3), None);
    assert_eq!(chosen_chat("+1", 1), Some(0));
}

#[test]
fn assistant_exit_words() {
    assert!(is_exit_word("SALIR"));
    assert!(is_exit_word("Volver"));
    assert!(is_exit_word("0"));
    assert!(!is_exit_word("no"));
    assert!(!is_exit_word("salir!"));
    assert_eq!(optional_instruction(""), None);
    assert_eq!(optional_instruction("corto").as_deref(), Some("corto"));
}

#[test]
fn contact_picker() {
    assert_eq!(ContactsView::shown_count(25), 20);
    assert_eq!(ContactsView::shown_count(3), 3);
    assert_eq!(ContactsView::pick(25, "20"), ContactPick::Chosen(19));
    assert_eq!(ContactsView::pick(25, "21"), ContactPick::OutOfRange);
    assert_eq!(ContactsView::pick(5, "6"), ContactPick::OutOfRange);
    assert_eq!(ContactsView::pick(5, "Cancelar"), ContactPick::Cancel);
    assert_eq!(ContactsView::pick(5, "0"), ContactPick::Cancel);
    assert_eq!(ContactsView::pick(5, "ana"), ContactPick::Filter("ana".to_string()));
}

#[test]
fn side_panel_updates() {
    let mut s = SidePanelState::default();
    assert_eq!(s.status_message, "Listo");
    s.message_input = "hola".into();
    s.record_send(Err("sin dispositivo".into()), false);
    assert_eq!(s.status_message, "Error: sin dispositivo");
    assert_eq!(s.message_input, "hola");
    s.record_send(Ok(()), true);
    assert_eq!(s.status_message, "Mensaje enviado a contacto.");
    assert_eq!(s.message_input, "");
    s.record_reply(Ok("respuesta".into()));
    assert_eq!(s.message_input, "respuesta");
    s.record_reply(Err("caído".into()));
    assert_eq!(s.status_message, "Error LM Studio: caído");
    s.record_summary(Ok("resumen".into()));
    assert_eq!((s.llm_response.as_str(), s.status_message.as_str()), ("resumen", "Resumen generado."));
}

#[test]
fn touch_gestures() {
    assert_eq!(classify_touch(10, 10, 15, 15, None), TouchGesture::Tap { x: 10, y: 10 });
    assert_eq!(classify_touch(0, 0, 19, 0, Some(500)), TouchGesture::Tap { x: 0, y: 0 });
    assert_eq!(
        classify_touch(0, 0, 20, 0, Some(5000)),
        TouchGesture::Swipe { x1: 0, y1: 0, x2: 20, y2: 0, duration_ms: 1000 }
    );
    assert_eq!(
        classify_touch(0, 0, 0, 300, Some(10)),
        TouchGesture::Swipe { x1: 0, y1: 0, x2: 0, y2: 300, duration_ms: 80 }
    );
    assert_eq!(
        classify_touch(i32::MIN, 0, i32::MAX, 0, None),
        TouchGesture::Swipe { x1: i32::MIN, y1: 0, x2: i32::MAX, y2: 0, duration_ms: 100 }
    );
    assert_eq!(frame_interval_ms(20), 50);
    assert_eq!(frame_interval_ms(0), 1000);
}

#[test]
fn chat_line_tags() {
    let m = |a: Option<&str>, d| ChatMessage::new("x".into(), a.map(|s| s.to_string()), None, d, None);
    assert_eq!(chat_line_tag(&m(Some("Ana"), MessageDirection::Incoming)).as_deref(), Some("◀ [Ana]"));
    assert_eq!(chat_line_tag(&m(None, MessageDirection::Incoming)).as_deref(), Some("◀ [Mensaje]"));
    assert_eq!(chat_line_tag(&m(Some("Ana"), MessageDirection::Outgoing)).as_deref(), Some("▶ [Tú]"));
    assert_eq!(chat_line_tag(&m(None, MessageDirection::Unknown)), None);
}
