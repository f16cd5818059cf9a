use whatsapp_usb_bridge::adb::{AdbClient, AdbError};
use whatsapp_usb_bridge::whatsapp::chat_list::ChatListExtractor;
use whatsapp_usb_bridge::whatsapp::models::{timestamp_from_clock, ChatMessage, MessageDirection, WhatsAppError, WhatsAppMessage};
use whatsapp_usb_bridge::whatsapp::navigator::{NavAction, OpenChatState, WhatsAppNavigator};
use whatsapp_usb_bridge::whatsapp::parser::WhatsAppParser;
use whatsapp_usb_bridge::whatsapp::reader::WhatsAppReader;
use whatsapp_usb_bridge::whatsapp::sender::{urlencoding_simple, WhatsAppSender};

fn client() -> AdbClient {
    AdbClient { adb_path: "adb".to_string(), selected_device: None }
}

#[test]
fn url_encoding() {
    assert_eq!(urlencoding_simple("Hola mundo ñ&=?"), "Hola%20mundo%20%C3%B1%26%3D%3F");
    assert_eq!(urlencoding_simple("a-b_c.d~e"), "a-b_c.d~e");
    assert_eq!(urlencoding_simple(""), "");
}

fn url_decode(s: &str) -> Vec<u8> {
    let b = s.as_bytes();
    let mut out = Vec::new();
    let mut i = 0;
    while i < b.len() {
        if b[i] == b'%' && i + 2 < b.len() {
            let h = u8::from_str_radix(&s[i + 1..i + 3], 16).unwrap();
            out.push(h);
            i += 3;
        } else {
            out.push(b[i]);
            i += 1;
        }
    }
    out
}

#[test]
fn url_encoding_round_trip() {
    for m in ["¿Qué tal? 100% 😀", "a&b=c#d \"e\"", "plain"] {
        let e = urlencoding_simple(m);
        assert!(!e.contains(' ') && !e.contains('&') && !e.contains('"'));
        assert_eq!(url_decode(&e), m.as_bytes().to_vec());
    }
}

#[test]
fn send_to_phone_command() {
    let adb = client();
    let s = WhatsAppSender::new(&adb);
    assert_eq!(
        s.send_to_phone("+54 9 11", "hi there").unwrap(),
        vec!["shell", "am start -a android.intent.action.VIEW -d \"https://api.whatsapp.com/send?phone=54911&text=hi%20there\""]
    );
    assert_eq!(s.send_to_phone("abc", "x"), Err(WhatsAppError::InvalidPhone));
}

#[test]
fn conversation_by_phone_command() {
    let adb = client();
    let r = WhatsAppReader::new(&adb);
    assert_eq!(
        r.read_conversation_by_phone("+1 (555) 010").unwrap(),
        vec!["shell", "am start -a android.intent.action.VIEW -d \"https://api.whatsapp.com/send?phone=1555010\""]
    );
    assert_eq!(r.read_conversation_by_phone(""), Err(WhatsAppError::InvalidPhone));
}

#[test]
fn notification_message_fields() {
    let m = WhatsAppMessage::new("Familia: Juan".into(), "Hola".into(), Some("k1".into()));
    assert_eq!(m.group_name.as_deref(), Some("Familia"));
    assert_eq!(m.sender, "Juan");
    assert!(m.is_group);
    assert_eq!(m.id, "Juan_Hola_k1");
    assert_eq!(m.phone_number, None);
    let d = WhatsAppMessage::new("Ana".into(), "x".into(), None);
    assert!(!d.is_group);
    assert_eq!(d.group_name, None);
    assert_eq!(d.id, "Ana_x_");
    let at = WhatsAppMessage::new("ana@x".into(), "y".into(), None);
    assert!(at.is_group);
    assert_eq!(at.sender, "ana@x");
    let fixed = WhatsAppMessage::new_at("A".into(), "b".into(), None, 42);
    assert_eq!(fixed.timestamp, 42);
}

#[test]
fn parse_dumpsys_keeps_chat_notifications() {
    let dump = "header\nNotificationRecord(0x1: pkg=com.whatsapp key=0|com.whatsapp|1|abc|10 android.title=String (Juan) android.text=String (Hola!) )\nNotificationRecord(0x2: pkg=com.android.systemui key=x android.title=String (Battery) android.text=String (Low))\nNotificationRecord(0x3: pkg=com.whatsapp key=k3 android.title=String (WhatsApp) android.text=String (3 mensajes nuevos))\nNotificationRecord(0x4: pkg=com.whatsapp key=k4 android.title=String (Grupo: Ana) android.bigText=String (Mensaje largo) android.text=String (corto))\nNotificationRecord(0x5: pkg=com.whatsapp key=k5 android.title=String (WhatsApp Web) android.text=String (activo))";
    let p = WhatsAppParser::new();
    let ms = p.parse_dumpsys(dump);
    assert_eq!(ms.len(), 2);
    assert_eq!(ms[0].sender, "Juan");
    assert_eq!(ms[0].content, "Hola!");
    assert_eq!(ms[0].notification_key.as_deref(), Some("0|com.whatsapp|1|abc|10"));
    assert!(!ms[0].is_group);
    assert_eq!(ms[1].sender, "Ana");
    assert_eq!(ms[1].group_name.as_deref(), Some("Grupo"));
    assert_eq!(ms[1].content, "Mensaje largo");
    assert_eq!(ms[1].id, "Ana_Mensaje largo_k4");
    assert!(p.parse_dumpsys("").is_empty());
}

const CHAT_LIST_XML: &str = r#"<hierarchy><node index="0" text="Juan Perez" resource-id="com.whatsapp:id/conversations_row_contact_name" class="x" bounds="[100,200][500,260]" /><node text="WhatsApp" resource-id="com.whatsapp:id/chat_title" bounds="[0,0][10,10]"/><node text="  Grupo  " resource-id="com.whatsapp:id/conversation_contact_name" bounds="[0,300][1080,400]"/></hierarchy>"#;

#[test]
fn chat_list_from_xml() {
    let chats = ChatListExtractor::parse_chats_from_xml(CHAT_LIST_XML);
    assert_eq!(chats.len(), 2);
    assert_eq!(chats[0].title, "Juan Perez");
    assert_eq!(chats[0].bounds_center, (300, 230));
    assert_eq!(chats[1].title, "Grupo");
    assert_eq!(chats[1].bounds_center, (540, 350));
    assert!(chats[0].last_message.is_none() && chats[0].unread_count.is_none());
}

#[test]
fn visible_chats_outcomes() {
    assert!(matches!(ChatListExtractor::get_visible_chats(Ok("  ".into())), Err(WhatsAppError::EmptyScreen)));
    assert!(matches!(
        ChatListExtractor::get_visible_chats(Err(AdbError::NotFound)),
        Err(WhatsAppError::Adb(AdbError::NotFound))
    ));
    assert_eq!(ChatListExtractor::get_visible_chats(Ok(CHAT_LIST_XML.into())).unwrap().len(), 2);
    let adb = client();
    assert_eq!(ChatListExtractor::new(&adb).open_main_args(), vec!["shell", "am start -n com.whatsapp/.Main"]);
}

const CHAT_XML: &str = r#"<hierarchy>
<node text="Ana" resource-id="com.whatsapp:id/conversation_contact_name" bounds="[100,50][300,100]"/>
<node text="Hola" resource-id="com.whatsapp:id/message_text" bounds="[50,600][400,650]"/>
<node text="Pedro" resource-id="com.whatsapp:id/name_in_group_tv" bounds="[50,400][300,430]"/>
<node text="Qué tal" resource-id="com.whatsapp:id/message_text" bounds="[50,450][400,500]"/>
<node text="Bien" resource-id="com.whatsapp:id/message_text" bounds="[700,700][1000,750]"/>
<node text="Escribe un mensaje" resource-id="com.whatsapp:id/entry" bounds="[0,2000][800,2100]"/>
</hierarchy>"#;

#[test]
fn chat_messages_from_xml() {
    let ms = WhatsAppReader::parse_chat_xml(CHAT_XML, 1080);
    let got: Vec<(String, Option<String>, MessageDirection)> =
        ms.iter().map(|m| (m.text.clone(), m.author.clone(), m.direction.clone())).collect();
    assert_eq!(
        got,
        vec![
            ("Qué tal".to_string(), Some("Pedro".to_string()), MessageDirection::Incoming),
            ("Hola".to_string(), None, MessageDirection::Incoming),
            ("Bien".to_string(), None, MessageDirection::Outgoing),
        ]
    );
}

#[test]
fn chat_messages_fallback() {
    let xml = r#"<node text="A" resource-id="x:id/foo" bounds="[0,10][100,20]"/><node text="B" resource-id="x:id/bar" bounds="[900,5][1000,15]"/>"#;
    let ms = WhatsAppReader::parse_chat_xml(xml, 1080);
    assert_eq!(ms.len(), 2);
    assert_eq!((ms[0].text.as_str(), ms[0].direction.clone()), ("B", MessageDirection::Outgoing));
    assert_eq!((ms[1].text.as_str(), ms[1].direction.clone()), ("A", MessageDirection::Incoming));
    assert!(WhatsAppReader::parse_chat_xml("", 1080).is_empty());
}

#[test]
fn active_chat_reading() {
    assert_eq!(WhatsAppReader::extract_chat_title(CHAT_XML).as_deref(), Some("Ana"));
    assert_eq!(WhatsAppReader::extract_chat_title("<x/>"), None);
    let (title, msgs) = WhatsAppReader::read_active_chat(Ok("Physical size: 1080x2400".into()), Ok(CHAT_XML.into())).unwrap();
    assert_eq!(title, "Ana");
    assert_eq!(msgs.len(), 3);
    let (title, msgs) = WhatsAppReader::read_active_chat(Err(AdbError::NotFound), Ok("<a/>".into())).unwrap();
    assert_eq!(title, "Conversación Actual");
    assert!(msgs.is_empty());
    assert!(matches!(WhatsAppReader::read_active_chat(Ok(String::new()), Ok(" ".into())), Err(WhatsAppError::EmptyScreen)));
}

#[test]
fn chat_message_new_keeps_fields() {
    let m = ChatMessage::new("t".into(), Some("a".into()), None, MessageDirection::Unknown, Some("read".into()));
    assert_eq!(m.text, "t");
    assert_eq!(m.author.as_deref(), Some("a"));
    assert_eq!(m.direction, MessageDirection::Unknown);
    assert_eq!(m.status.as_deref(), Some("read"));
}

#[test]
fn search_button_and_first_result() {
    let xml = r#"<node text="" resource-id="com.whatsapp:id/menuitem_search" content-desc="Buscar" bounds="[900,100][1000,200]"/>"#;
    assert_eq!(WhatsAppNavigator::find_search_button(xml), Some((950, 150)));
    assert_eq!(WhatsAppNavigator::find_search_button("<node/>"), None);
    let res = r#"<node text="Juan" resource-id="com.whatsapp:id/conversations_row_contact_name" bounds="[0,300][1080,400]"/>"#;
    assert_eq!(WhatsAppNavigator::find_first_chat_result(res), Some((540, 350)));
}

fn expect_run(a: NavAction) -> (Vec<String>, u64) {
    match a {
        NavAction::Run { args, pause_ms } => (args, pause_ms),
        NavAction::Finish { .. } => panic!("finished early"),
    }
}

#[test]
fn open_chat_by_name_fallback_path() {
    let adb = client();
    let nav = WhatsAppNavigator::new(&adb);
    let search = r#"<node text="" resource-id="com.whatsapp:id/menuitem_search" bounds="[900,100][1000,200]"/>"#;
    let (s, a) = nav.open_chat_by_name("Juan", OpenChatState::Start, Ok(String::new()));
    assert_eq!(s, OpenChatState::MainOpened);
    assert_eq!(expect_run(a), (vec!["shell".to_string(), "am start -n com.whatsapp/.Main".to_string()], 0));
    let (s, a) = nav.open_chat_by_name("Juan", s, Ok(String::new()));
    assert_eq!(s, OpenChatState::SearchDumped);
    assert_eq!(expect_run(a).1, 1200);
    let (s, a) = nav.open_chat_by_name("Juan", s, Err(AdbError::NotFound));
    assert_eq!(s, OpenChatState::SearchRead);
    assert_eq!(expect_run(a).0[1], "cat /data/local/tmp/window_dump.xml");
    let (s, a) = nav.open_chat_by_name("Juan", s, Ok(search.to_string()));
    assert_eq!(s, OpenChatState::SearchTapped);
    assert_eq!(expect_run(a).0[1], "input tap 950 150");
    let (s, a) = nav.open_chat_by_name("Juan", s, Ok(String::new()));
    assert_eq!(s, OpenChatState::QueryTyped);
    assert_eq!(expect_run(a), (vec!["shell".to_string(), "input text \"Juan\"".to_string()], 800));
    let (s, a) = nav.open_chat_by_name("Juan", s, Ok(String::new()));
    assert_eq!(s, OpenChatState::ResultsDumped);
    assert_eq!(expect_run(a).1, 1500);
    let (s, _) = nav.open_chat_by_name("Juan", s, Ok(String::new()));
    assert_eq!(s, OpenChatState::ResultsRead);
    let (s, a) = nav.open_chat_by_name("Juan", s, Ok("<nothing/>".to_string()));
    assert_eq!(s, OpenChatState::SizeRead);
    assert_eq!(expect_run(a).0[1], "wm size");
    let (s, a) = nav.open_chat_by_name("Juan", s, Ok("Physical size: 720x1280".to_string()));
    assert_eq!(s, OpenChatState::FallbackTapped);
    assert_eq!(expect_run(a).0[1], "input tap 360 350");
    let (s, a) = nav.open_chat_by_name("Juan", s, Ok(String::new()));
    assert_eq!(s, OpenChatState::Finished);
    assert!(matches!(a, NavAction::Finish { result: Ok(()), pause_ms: 1500 }));
}

#[test]
fn open_chat_by_name_stops_on_error() {
    let adb = client();
    let nav = WhatsAppNavigator::new(&adb);
    let (s, a) = nav.open_chat_by_name("x", OpenChatState::MainOpened, Err(AdbError::ShellFailed("e".into())));
    assert_eq!(s, OpenChatState::Finished);
    assert!(matches!(a, NavAction::Finish { result: Err(AdbError::ShellFailed(_)), .. }));
    let (s, a) = nav.open_chat_by_name("x", OpenChatState::SearchRead, Ok("<none/>".into()));
    assert_eq!(s, OpenChatState::SearchKeyed);
    assert_eq!(expect_run(a).0[1], "input keyevent 84");
    let (s, _) = nav.open_chat_by_name("x", OpenChatState::SearchKeyed, Err(AdbError::NotFound));
    assert_eq!(s, OpenChatState::QueryTyped);
    let res = r#"<node resource-id="com.whatsapp:id/name" bounds="[10,20][30,40]"/>"#;
    let (s, a) = nav.open_chat_by_name("x", OpenChatState::ResultsRead, Ok(res.into()));
    assert_eq!(s, OpenChatState::ResultTapped);
    assert_eq!(expect_run(a).0[1], "input tap 20 30");
}

#[test]
fn colon_titles_are_groups() {
    for title in ["Trabajo: Luis", "a:b", ":x", "Grupo:"] {
        let m = WhatsAppMessage::new(title.into(), "t".into(), None);
        assert!(m.is_group && m.group_name.is_some(), "{}", title);
    }
    let m = WhatsAppMessage::new("Luis".into(), "t".into(), None);
    assert!(!m.is_group && m.group_name.is_none());
}

#[test]
fn own_messages_carry_no_author() {
    let xml = r#"<node text="Pedro" resource-id="x:id/name_in_group_tv" bounds="[50,100][300,130]"/>
<node text="Mio" resource-id="x:id/message_text" bounds="[700,150][1000,200]"/>
<node text="Suyo" resource-id="x:id/message_text" bounds="[50,250][400,300]"/>"#;
    let ms = WhatsAppReader::parse_chat_xml(xml, 1080);
    assert_eq!(ms.len(), 2);
    assert_eq!((ms[0].text.as_str(), ms[0].author.as_deref(), ms[0].direction), ("Mio", None, MessageDirection::Outgoing));
    assert_eq!((ms[1].text.as_str(), ms[1].author.as_deref(), ms[1].direction), ("Suyo", Some("Pedro"), MessageDirection::Incoming));
}

#[test]
fn chat_list_skips_screen_labels() {
    let xml = r#"<node text="Buscar" resource-id="x:id/chat_title" bounds="[0,0][10,10]"/><node text="Search" resource-id="x:id/chat_title" bounds="[0,0][10,10]"/><node text=" " resource-id="x:id/chat_title" bounds="[0,0][10,10]"/><node text="Eva" resource-id="x:id/chat_title" bounds="[0,0][10,20]"/>"#;
    let chats = ChatListExtractor::parse_chats_from_xml(xml);
    assert_eq!(chats.len(), 1);
    assert_eq!(chats[0].title, "Eva");
    assert_eq!(chats[0].bounds_center, (5, 10));
}

#[test]
fn dump_messages_have_sender_and_text() {
    let dump = "NotificationRecord(pkg=com.whatsapp android.title=String (Luz) android.text=String (   ))NotificationRecord(pkg=com.whatsapp android.title=String (  ) android.text=String (hola))NotificationRecord(pkg=com.whatsapp android.title=String (WhatsApp) android.text=String (Buscando))NotificationRecord(pkg=com.whatsapp android.title=String (Luz) android.text=String (hola))";
    let ms = WhatsAppParser::new().parse_dumpsys(dump);
    assert_eq!(ms.len(), 1);
    assert_eq!((ms[0].sender.as_str(), ms[0].content.as_str()), ("Luz", "hola"));
}

fn screen_msg(text: &str, author: Option<&str>, d: MessageDirection) -> ChatMessage {
    ChatMessage::new(text.into(), author.map(|a| a.to_string()), None, d, None)
}

#[test]
fn chat_screen_author_applies_to_next_incoming() {
    let xml = r#"<node text="Ana" resource-id="w:id/name" bounds="[50,300][200,340]"/><node text="Hola" resource-id="w:id/message_text" bounds="[40,350][400,400]"/><node text="Chau" resource-id="w:id/message_text" bounds="[40,450][400,500]"/>"#;
    assert_eq!(
        WhatsAppReader::parse_chat_xml(xml, 1080),
        vec![screen_msg("Hola", Some("Ana"), MessageDirection::Incoming), screen_msg("Chau", None, MessageDirection::Incoming)]
    );
}

#[test]
fn chat_screen_orders_by_height() {
    let xml = r#"<node text="B" resource-id="w:id/message_text" bounds="[700,900][1000,950]"/><node text="A" resource-id="w:id/message_text" bounds="[40,500][400,550]"/>"#;
    assert_eq!(
        WhatsAppReader::parse_chat_xml(xml, 1080),
        vec![screen_msg("A", None, MessageDirection::Incoming), screen_msg("B", None, MessageDirection::Outgoing)]
    );
}

#[test]
fn chat_screen_fallback_keeps_every_node() {
    let xml = r#"<node text="HOY" resource-id="w:id/date" bounds="[400,200][680,240]"/><node text="Foto" resource-id="w:id/media" bounds="[600,300][1000,700]"/>"#;
    let ms = WhatsAppReader::parse_chat_xml(xml, 1080);
    assert_eq!(ms, vec![screen_msg("HOY", None, MessageDirection::Incoming), screen_msg("Foto", None, MessageDirection::Outgoing)]);
    assert!(ms.iter().all(|m| m.time_str.is_none() && m.status.is_none()));
}

#[test]
fn clock_readings_become_timestamps() {
    assert_eq!(timestamp_from_clock(Ok(1_700_000_000_123)), 1_700_000_000_123);
    assert_eq!(timestamp_from_clock(Err(5)), -5);
    assert_eq!(timestamp_from_clock(Ok(u128::MAX)), i64::MAX);
    assert_eq!(timestamp_from_clock(Err(u128::MAX)), -i64::MAX);
    let m = WhatsAppMessage::new("A".into(), "b".into(), None);
    assert!(m.timestamp > 1_600_000_000_000);
}
