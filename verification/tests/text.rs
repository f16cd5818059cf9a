use whatsapp_usb_bridge::text::{
    chars_of, int_text_exec, lines_exec, parse_i32_exec, parse_usize_exec, split_str, trim_exec, words_exec,
};

fn s(v: &[char]) -> String {
    v.iter().collect()
}

#[test]
fn parse_i32_like_std() {
    for t in ["2147483647", "2147483648", "-2147483648", "-2147483649", "+5", "", "-", "+", " 5", "5 ", "007", "1a", "٣"] {
        assert_eq!(parse_i32_exec(&chars_of(t)), t.parse::<i32>().ok(), "{t:?}");
    }
}

#[test]
fn parse_usize_like_std() {
    for t in ["0", "+3", "-0", "", "18446744073709551615", "18446744073709551616", "12x"] {
        assert_eq!(parse_usize_exec(&chars_of(t)), t.parse::<usize>().ok(), "{t:?}");
    }
}

#[test]
fn int_text_like_display() {
    for v in [0, 7, -7, 10, i32::MAX, i32::MIN, 120034] {
        assert_eq!(s(&int_text_exec(v)), v.to_string());
    }
}

#[test]
fn trim_like_std() {
    for t in ["  a b  ", "\u{3000}x\u{85}", "", "   ", "\t\n x \r\n"] {
        assert_eq!(s(&trim_exec(&chars_of(t))), t.trim());
    }
}

#[test]
fn lines_like_std() {
    for t in ["a\nb", "a\r\nb\r\n", "", "\n", "x\n\ny\r", "one"] {
        let ours: Vec<String> = lines_exec(&chars_of(t)).iter().map(|l| s(l)).collect();
        let theirs: Vec<String> = t.lines().map(|l| l.to_string()).collect();
        assert_eq!(ours, theirs, "{t:?}");
    }
}

#[test]
fn words_like_std() {
    for t in ["  a  bb\tc ", "", "x", "\u{2003}y z"] {
        let ours: Vec<String> = words_exec(&chars_of(t)).iter().map(|l| s(l)).collect();
        let theirs: Vec<String> = t.split_whitespace().map(|l| l.to_string()).collect();
        assert_eq!(ours, theirs);
    }
}

#[test]
fn split_like_std() {
    for (t, sep) in [("a, b, c", ", "), ("", ","), ("a,", ","), ("NotificationRecord(xNotificationRecord(y", "NotificationRecord(")] {
        let ours: Vec<String> = split_str(&chars_of(t), sep).iter().map(|l| s(l)).collect();
        let theirs: Vec<String> = t.split(sep).map(|l| l.to_string()).collect();
        assert_eq!(ours, theirs);
    }
}
