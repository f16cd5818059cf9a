use whatsapp_usb_bridge::adb::{AdbClient, AdbError};
use whatsapp_usb_bridge::contacts::{Contact, ContactExtractor, ContactMatcher, ContactsError};

fn contact(name: &str, raw: &str) -> Contact {
    Contact::new(None, name.to_string(), raw.to_string())
}

fn client() -> AdbClient {
    AdbClient { adb_path: "adb".to_string(), selected_device: None }
}

#[test]
fn sanitize_phone_keeps_plus_and_digits() {
    assert_eq!(Contact::sanitize_phone(" +54 (11) 2233-4455 "), "+541122334455");
    assert_eq!(Contact::sanitize_phone("011 15-1234"), "011151234");
    assert_eq!(Contact::sanitize_phone("abc"), "");
    assert_eq!(Contact::sanitize_phone("12+34"), "1234");
    assert_eq!(Contact::sanitize_phone(""), "");
}

#[test]
fn sanitize_phone_is_idempotent() {
    for raw in [" +54 (11) 2233-4455 ", "++12", "tel: 5 5", "+", ""] {
        let once = Contact::sanitize_phone(raw);
        assert_eq!(Contact::sanitize_phone(&once), once);
    }
}

#[test]
fn contact_new_sanitizes() {
    let c = Contact::new(Some("7".to_string()), "Ana".to_string(), "+54 11 1234".to_string());
    assert_eq!(c.id.as_deref(), Some("7"));
    assert_eq!(c.name, "Ana");
    assert_eq!(c.phone, "+54111234");
    assert_eq!(c.raw_phone, "+54 11 1234");
}

#[test]
fn format_for_whatsapp_cases() {
    assert_eq!(ContactMatcher::format_for_whatsapp("+54 9 11 2233-4455", Some("54")), "5491122334455");
    assert_eq!(ContactMatcher::format_for_whatsapp("11 2233 4455", Some("+54")), "541122334455");
    assert_eq!(ContactMatcher::format_for_whatsapp("1122334455", None), "1122334455");
    assert_eq!(ContactMatcher::format_for_whatsapp("5411223344", Some("54")), "5411223344");
    assert_eq!(ContactMatcher::format_for_whatsapp("12345678901", Some("54")), "12345678901");
    assert_eq!(ContactMatcher::format_for_whatsapp("123", Some("")), "123");
    assert_eq!(ContactMatcher::format_for_whatsapp("no digits", Some("54")), "54");
}

#[test]
fn format_for_whatsapp_is_idempotent() {
    for (p, cc) in [("11 2233 4455", Some("54")), ("+1 (555) 010", Some("1")), ("999", None), ("", Some("7"))] {
        let once = ContactMatcher::format_for_whatsapp(p, cc);
        assert_eq!(ContactMatcher::format_for_whatsapp(&once, cc), once);
        assert!(once.chars().all(|c| c.is_ascii_digit()));
    }
}

#[test]
fn search_by_name_and_phone() {
    let cs = vec![
        contact("Ana Pérez", "+54 9 11 1111"),
        contact("Bruno", "22334455"),
        contact("carla", "+54 9 11 5555"),
    ];
    let names = |r: Vec<&Contact>| r.iter().map(|c| c.name.clone()).collect::<Vec<_>>();
    assert_eq!(names(ContactMatcher::search(&cs, " ANA ")), vec!["Ana Pérez"]);
    assert_eq!(names(ContactMatcher::search(&cs, "")), vec!["Ana Pérez", "Bruno", "carla"]);
    assert_eq!(names(ContactMatcher::search(&cs, "2233")), vec!["Bruno"]);
    assert_eq!(names(ContactMatcher::search(&cs, "555")), vec!["carla"]);
    assert_eq!(names(ContactMatcher::search(&cs, "xyz")), Vec::<String>::new());
    assert_eq!(names(ContactMatcher::search(&cs, "   ")), vec!["Ana Pérez", "Bruno", "carla"]);
}

#[test]
fn parse_row_cases() {
    let c = ContactExtractor::parse_row("Row: 0 display_name=Ana Pérez, data1=+54 9 11 1234-5678").unwrap();
    assert_eq!(c.name, "Ana Pérez");
    assert_eq!(c.raw_phone, "+54 9 11 1234-5678");
    assert_eq!(c.phone, "+5491112345678");
    assert_eq!(c.id, None);
    let z = ContactExtractor::parse_row("Row: 2 number=555, display_name=Zoe").unwrap();
    assert_eq!((z.name.as_str(), z.phone.as_str()), ("Zoe", "555"));
    assert!(ContactExtractor::parse_row("Row: 1 display_name=, data1=123").is_none());
    assert!(ContactExtractor::parse_row("Row:").is_none());
    assert!(ContactExtractor::parse_row("Row: 3 display_name=Solo").is_none());
}

#[test]
fn parse_contacts_dedups_and_sorts() {
    let raw = "Row: 0 display_name=bruno, data1=111\nRow: 1 display_name=Ana, data1=222\nRow: 2 display_name=Carlos, data1=111\n  Row: 3 display_name=alba, data1=333\nnot a row\nRow: 4 display_name=Xx, data1=abc\n";
    let cs = ContactExtractor::parse_contacts(raw).unwrap();
    let names: Vec<&str> = cs.iter().map(|c| c.name.as_str()).collect();
    assert_eq!(names, vec!["alba", "Ana", "bruno"]);
    assert_eq!(cs[2].phone, "111");
}

#[test]
fn parse_contacts_sort_is_stable() {
    let raw = "Row: 0 display_name=ana, data1=1\nRow: 1 display_name=ANA, data1=2\nRow: 2 display_name=Ana, data1=3";
    let cs = ContactExtractor::parse_contacts(raw).unwrap();
    let names: Vec<&str> = cs.iter().map(|c| c.name.as_str()).collect();
    assert_eq!(names, vec!["ana", "ANA", "Ana"]);
}

#[test]
fn parse_contacts_blank_is_error() {
    assert_eq!(ContactExtractor::parse_contacts("  \n "), Err(ContactsError::Unavailable));
}

#[test]
fn fetch_contacts_falls_back() {
    let adb = client();
    let ex = ContactExtractor::new(&adb);
    let good = "Row: 0 display_name=Ana, data1=1".to_string();
    let r = ex.fetch_contacts(Ok(good.clone()), Err(AdbError::Spawn("x".into()))).unwrap();
    assert_eq!(r.len(), 1);
    let r = ex.fetch_contacts(Ok("Error: no provider".to_string()), Ok(good.clone())).unwrap();
    assert_eq!(r[0].name, "Ana");
    let r = ex.fetch_contacts(Ok("   ".to_string()), Err(AdbError::Spawn("x".into())));
    assert_eq!(r, Err(ContactsError::Unavailable));
    assert!(!ContactExtractor::is_usable(&Err(AdbError::NotFound)));
    assert!(ContactExtractor::is_usable(&Ok("Row: 1".to_string())));
}

#[test]
fn contact_queries() {
    let mut adb = client();
    adb.set_device("SER".to_string());
    let ex = ContactExtractor::new(&adb);
    assert_eq!(
        ex.primary_query(),
        vec!["-s", "SER", "shell", "content query --uri content://com.android.contacts/data/phones --projection display_name:data1"]
    );
    assert_eq!(
        ex.fallback_query(),
        vec!["-s", "SER", "shell", "content query --uri content://contacts/phones/ --projection display_name:number"]
    );
}

#[test]
fn listed_numbers_are_distinct_and_present() {
    let raw = "Row: 0 display_name=Ana, data1=+54 11\nRow: 1 display_name=Beto, data1=5411\nRow: 2 display_name=Ana, data1=+5411\nRow: 3 display_name=Cami, data1=x\nRow: 4 display_name=Dani, data1=99\nRow: 5 display_name=dani, data1=99";
    let cs = ContactExtractor::parse_contacts(raw).unwrap();
    let phones: Vec<&str> = cs.iter().map(|c| c.phone.as_str()).collect();
    assert_eq!(phones, vec!["+5411", "5411", "99"]);
    for i in 0..cs.len() {
        assert!(!cs[i].phone.is_empty());
        for j in i + 1..cs.len() {
            assert_ne!(cs[i].phone, cs[j].phone);
        }
    }
}

#[test]
fn search_lists_only_matching_contacts() {
    let cs = vec![contact("Ana", "+54 11"), contact("Mariana", "33"), contact("Beto", "5411")];
    let r = ContactMatcher::search(&cs, "ana");
    let names: Vec<&str> = r.iter().map(|c| c.name.as_str()).collect();
    assert_eq!(names, vec!["Ana", "Mariana"]);
    let r = ContactMatcher::search(&cs, "411");
    let names: Vec<&str> = r.iter().map(|c| c.name.as_str()).collect();
    assert_eq!(names, vec!["Ana", "Beto"]);
}
