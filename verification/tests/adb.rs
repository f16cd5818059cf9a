use whatsapp_usb_bridge::adb::{parse_screen_size, AdbClient, AdbError, Probe};

fn on(dev: Option<&str>) -> AdbClient {
    AdbClient { adb_path: "adb".to_string(), selected_device: dev.map(|s| s.to_string()) }
}

#[test]
fn candidates_in_order() {
    let c = AdbClient::candidates(Some("/x/adb"), "L", "U");
    assert_eq!(c.len(), 11);
    assert_eq!(c[0].path, "/x/adb");
    assert_eq!(c[0].probe, Probe::Exists);
    assert_eq!(c[1].path, "adb");
    assert_eq!(c[1].probe, Probe::RunsVersion);
    assert_eq!(c[5].path, "L\\Android\\Sdk\\platform-tools\\adb.exe");
    assert_eq!(c[7].path, "U\\AppData\\Local\\Android\\Sdk\\platform-tools\\adb.exe");
    assert_eq!(c[10].path, "C:\\Android\\platform-tools\\adb.exe");
    assert_eq!(AdbClient::candidates(None, "", "").len(), 10);
}

#[test]
fn new_takes_first_found() {
    let c = AdbClient::candidates(None, "L", "U");
    let a = AdbClient::new(&c, &vec![false, false, true, true]).unwrap();
    assert_eq!(a.adb_path, ".\\platform-tools\\adb.exe");
    assert_eq!(a.selected_device, None);
    assert_eq!(AdbClient::new(&c, &vec![]).unwrap_err(), AdbError::NotFound);
    assert_eq!(AdbClient::new(&c, &vec![false; 10]).unwrap_err(), AdbError::NotFound);
}

#[test]
fn device_selection_goes_into_commands() {
    let mut a = on(None);
    assert_eq!(a.tap(10, -20), vec!["shell", "input tap 10 -20"]);
    a.set_device("R5C".to_string());
    assert_eq!(a.selected_device.as_deref(), Some("R5C"));
    assert_eq!(a.tap(10, -20), vec!["-s", "R5C", "shell", "input tap 10 -20"]);
    assert_eq!(a.send_key_event(224), vec!["-s", "R5C", "shell", "input keyevent 224"]);
}

#[test]
fn simple_commands() {
    let a = on(None);
    assert_eq!(a.swipe(1, 2, 3, 4, 400), vec!["shell", "input swipe 1 2 3 4 400"]);
    assert_eq!(a.get_notifications_raw(), vec!["shell", "dumpsys notification --noredact"]);
    assert_eq!(a.dismiss_keyboard(), vec!["shell", "input keyevent 111"]);
    assert_eq!(a.screen_size_args(), vec!["shell", "wm size"]);
    let (d, c) = a.dump_ui_hierarchy();
    assert_eq!(d, vec!["shell", "uiautomator dump /data/local/tmp/window_dump.xml"]);
    assert_eq!(c, vec!["shell", "cat /data/local/tmp/window_dump.xml"]);
    assert_eq!(a.capture_screen_args(), vec!["exec-out", "screencap", "-p"]);
    assert_eq!(on(Some("S")).capture_screen_args(), vec!["-s", "S", "exec-out", "screencap", "-p"]);
    assert_eq!(AdbClient::list_devices_args(), vec!["devices", "-l"]);
    assert_eq!(a.send_key_event(i32::MIN), vec!["shell", "input keyevent -2147483648"]);
}

#[test]
fn input_text_escapes() {
    let a = on(None);
    assert_eq!(
        a.input_text("hola mundo & \"x\" $H (a);b|c<d>e'f\\g%"),
        vec!["shell", "input text \"hola%smundo%s\\&%s\\\"x\\\"%s\\$H%s\\(a\\)\\;b\\|c\\<d\\>e\\'f\\\\g%\""]
    );
    assert_eq!(a.input_text(""), vec!["shell", "input text \"\""]);
}

#[test]
fn wake_sequences() {
    let a = on(None);
    let s = a.setup_always_on();
    assert_eq!(s.len(), 5);
    assert_eq!(s[0], vec!["shell", "input keyevent 224"]);
    assert_eq!(s[1], vec!["shell", "wm dismiss-keyguard"]);
    assert_eq!(s[2], vec!["shell", "svc power stayon true"]);
    assert_eq!(s[3], vec!["shell", "settings put global stay_on_while_plugged_in 3"]);
    assert_eq!(s[4], vec!["shell", "settings put system screen_off_timeout 2147483647"]);
    let w = a.ensure_device_awake();
    assert_eq!(w, s[..3].to_vec());
}

#[test]
fn clipboard_then_paste_or_type() {
    let a = on(None);
    assert_eq!(a.set_clipboard_and_paste("a\"b\\c d"), vec!["shell", "cmd clipboard set text \"a\\\"b\\\\c d\""]);
    assert_eq!(a.paste_or_type("hi", &Ok(String::new())), vec!["shell", "input keyevent 279"]);
    assert_eq!(a.paste_or_type("hi", &Ok("Error: nope".to_string())), vec!["shell", "input text \"hi\""]);
    assert_eq!(a.paste_or_type("hi", &Ok("java.lang.Exception".to_string())), vec!["shell", "input text \"hi\""]);
    assert_eq!(a.paste_or_type("hi", &Err(AdbError::ShellFailed("x".into()))), vec!["shell", "input text \"hi\""]);
}

#[test]
fn shell_outcomes() {
    assert_eq!(AdbClient::execute_shell(false, String::new(), "boom".into()), Err(AdbError::ShellFailed("boom".into())));
    assert_eq!(AdbClient::execute_shell(false, "out".into(), "err".into()), Ok("out".to_string()));
    assert_eq!(AdbClient::execute_shell(true, String::new(), "x".into()), Ok(String::new()));
    assert_eq!(AdbClient::execute_shell(false, String::new(), String::new()), Ok(String::new()));
    assert_eq!(AdbClient::capture_screen_bytes(true, vec![1, 2], String::new()), Ok(vec![1, 2]));
    assert_eq!(AdbClient::capture_screen_bytes(false, vec![1], "no".into()), Err(AdbError::CaptureFailed("no".into())));
}

#[test]
fn list_devices_parses_output() {
    let out = "List of devices attached\nR5CT123 device usb:1-1 product:x model:SM_S911B device:dm1q\r\nemulator-5554 offline\n  \nlonely\n";
    let ds = AdbClient::list_devices(true, out, String::new()).unwrap();
    assert_eq!(ds.len(), 2);
    assert_eq!(ds[0].serial, "R5CT123");
    assert_eq!(ds[0].state, "device");
    assert_eq!(ds[0].model.as_deref(), Some("SM_S911B"));
    assert_eq!(ds[1].serial, "emulator-5554");
    assert_eq!(ds[1].state, "offline");
    assert_eq!(ds[1].model, None);
    assert_eq!(AdbClient::list_devices(false, "", "err".into()).unwrap_err(), AdbError::ListFailed("err".into()));
    assert!(AdbClient::list_devices(true, "", String::new()).unwrap().is_empty());
}

#[test]
fn screen_size_parsing() {
    assert_eq!(AdbClient::get_screen_size(Ok("Physical size: 1080x2400\nOverride size: 720x1600\n".into())), Ok((1080, 2400)));
    assert_eq!(AdbClient::get_screen_size(Ok("garbage".into())), Ok((1080, 2400)));
    assert_eq!(AdbClient::get_screen_size(Err(AdbError::NotFound)), Err(AdbError::NotFound));
    assert_eq!(parse_screen_size("Override size:  720 x 1280 "), (720, 1280));
    assert_eq!(parse_screen_size("Physical size: abcx100\nOverride size: 800x600"), (800, 600));
    assert_eq!(parse_screen_size("size: 1x2x3"), (1080, 2400));
}

#[test]
fn input_text_never_sends_a_raw_space() {
    let a = on(None);
    for text in ["a b", "  ", "uno dos  tres", "x\ty z", ""] {
        let args = a.input_text(text);
        let cmd = &args[1];
        let inner = &cmd["input text \"".len()..cmd.len() - 1];
        assert!(!inner.contains(' '), "{:?} -> {:?}", text, cmd);
    }
}

#[test]
fn clipboard_acceptance() {
    assert!(AdbClient::clipboard_was_accepted(&Ok(String::new())));
    assert!(!AdbClient::clipboard_was_accepted(&Ok("Error: x".to_string())));
    assert!(!AdbClient::clipboard_was_accepted(&Ok("SecurityException".to_string())));
    assert!(!AdbClient::clipboard_was_accepted(&Err(AdbError::NotFound)));
}
