//! Sending messages: opening a chat with the text already filled in.
use vstd::prelude::*;
use crate::adb::{opt_view, shell_argv, AdbClient};
use crate::text::{append, append_str, chars_of, keep_digits, keep_digits_exec, string_of};
use super::models::WhatsAppError;

verus! {

/// Bytes kept as they are in a URL query (RFC 3986 unreserved characters).
pub open spec fn is_unreserved(b: u8) -> bool {
    (97 <= b <= 122) || (65 <= b <= 90) || (48 <= b <= 57) || b == 45 || b == 95 || b == 46 || b
        == 126
}

/// An upper-case hexadecimal digit.
pub open spec fn hex_digit(v: u8) -> char {
    if v < 10 {
        (48 + v) as char
    } else {
        (55 + v) as char
    }
}

/// One byte of the text as it stands in the URL.
pub open spec fn encode_byte(b: u8) -> Seq<char> {
    if is_unreserved(b) {
        seq![b as char]
    } else if b == 32 {
        seq!['%', '2', '0']
    } else {
        seq!['%', hex_digit(b / 16), hex_digit(b % 16)]
    }
}

/// The bytes of the text percent-encoded.
pub open spec fn url_encode(bytes: Seq<u8>) -> Seq<char>
    decreases bytes.len(),
{
    if bytes.len() == 0 {
        Seq::empty()
    } else {
        encode_byte(bytes[0]) + url_encode(bytes.drop_first())
    }
}

/// The value of a hexadecimal digit of either case.
pub open spec fn hex_value(c: char) -> Option<u8> {
    if '0' <= c && c <= '9' {
        Some(((c as u32) - 48) as u8)
    } else if 'A' <= c && c <= 'F' {
        Some(((c as u32) - 55) as u8)
    } else if 'a' <= c && c <= 'f' {
        Some(((c as u32) - 87) as u8)
    } else {
        None
    }
}

/// Percent-decoding of an ASCII query value.
pub open spec fn url_decode(s: Seq<char>) -> Seq<u8>
    decreases s.len(),
{
    if s.len() == 0 {
        Seq::empty()
    } else if s[0] == '%' && s.len() >= 3 && hex_value(s[1]) is Some && hex_value(s[2]) is Some {
        seq![(hex_value(s[1])->0 * 16 + hex_value(s[2])->0) as u8] + url_decode(s.skip(3))
    } else {
        seq![(s[0] as u32) as u8] + url_decode(s.drop_first())
    }
}

/// The command that opens WhatsApp on the chat with `digits`, the text filled in.
pub open spec fn send_cmd(digits: Seq<char>, message: Seq<char>) -> Seq<char> {
    "am start -a android.intent.action.VIEW -d \"https://api.whatsapp.com/send?phone="@ + digits
        + "&text="@ + url_encode(vstd::utf8::encode_utf8(message)) + "\""@
}

pub proof fn lemma_hex_roundtrip(v: u8)
    requires
        v < 16,
    ensures
        hex_value(hex_digit(v)) == Some(v),
{
}

/// Decoding the encoding of any bytes gives them back.
pub proof fn law_url_roundtrip(bytes: Seq<u8>)
    ensures
        url_decode(url_encode(bytes)) == bytes,
    decreases bytes.len(),
{
    if bytes.len() > 0 {
        let b = bytes[0];
        let rest = bytes.drop_first();
        law_url_roundtrip(rest);
        let e = url_encode(bytes);
        let head = encode_byte(b);
        assert(e == head + url_encode(rest));
        if is_unreserved(b) {
            assert(e[0] == b as char);
            assert(e.drop_first() =~= url_encode(rest));
            assert(((b as char) as u32) as u8 == b);
        } else {
            lemma_hex_roundtrip(b / 16);
            lemma_hex_roundtrip(b % 16);
            if b == 32 {
                assert(hex_value('2') == Some(2u8));
                assert(hex_value('0') == Some(0u8));
            }
            assert(e.skip(3) =~= url_encode(rest));
            assert(e[0] == '%' && e[1] == head[1] && e[2] == head[2]);
        }
        assert(url_decode(e) =~= seq![b] + rest);
        assert(seq![b] + rest =~= bytes);
    }
}

/// Characters that may stand in a query value without ending it.
pub open spec fn is_query_safe(c: char) -> bool {
    ('a' <= c && c <= 'z') || ('A' <= c && c <= 'Z') || ('0' <= c && c <= '9') || c == '-' || c
        == '_' || c == '.' || c == '~' || c == '%'
}

/// The encoding holds only unreserved characters and `%`: no space, `&`, `=`,
/// `#` or quote can end the text parameter or the shell argument.
pub proof fn law_url_encode_safe(bytes: Seq<u8>)
    ensures
        forall|i: int| 0 <= i < url_encode(bytes).len() ==> is_query_safe(#[trigger] url_encode(bytes)[i]),
    decreases bytes.len(),
{
    if bytes.len() > 0 {
        law_url_encode_safe(bytes.drop_first());
        let head = encode_byte(bytes[0]);
        let e = url_encode(bytes);
        assert forall|i: int| 0 <= i < e.len() implies is_query_safe(#[trigger] e[i]) by {
            if i >= head.len() {
                assert(e[i] == url_encode(bytes.drop_first())[i - head.len()]);
            }
        };
    }
}

/// Percent-encodes the bytes of `input` (upper-case hex, space as `%20`).
pub fn urlencoding_simple(input: &str) -> (r: String)
    ensures
        r@ == url_encode(vstd::utf8::encode_utf8(input@)),
{
    let bytes = input.as_bytes();
    let ghost bs = bytes@;
    assert(bs == vstd::utf8::encode_utf8(input@));
    let mut r: Vec<char> = Vec::new();
    let mut i: usize = 0;
    assert(bs.skip(0) =~= bs);
    while i < bytes.len()
        invariant
            i <= bytes@.len(),
            bs == bytes@,
            r@ + url_encode(bs.skip(i as int)) == url_encode(bs),
        decreases bytes.len() - i,
    {
        let b = bytes[i];
        assert(bs.skip(i as int)[0] == b);
        assert(bs.skip(i as int).drop_first() =~= bs.skip(i + 1));
        let ghost before = r@;
        if (97 <= b && b <= 122) || (65 <= b && b <= 90) || (48 <= b && b <= 57) || b == 45 || b == 95
            || b == 46 || b == 126 {
            r.push(b as char);
        } else if b == 32 {
            r.push('%');
            r.push('2');
            r.push('0');
        } else {
            r.push('%');
            r.push(hex_char(b / 16));
            r.push(hex_char(b % 16));
        }
        assert(r@ =~= before + encode_byte(b));
        i += 1;
    }
    assert(bs.skip(i as int) =~= Seq::<u8>::empty());
    assert(r@ + url_encode(bs.skip(i as int)) =~= r@);
    string_of(&r)
}

fn hex_char(v: u8) -> (c: char)
    requires
        v < 16,
    ensures
        c == hex_digit(v),
{
    if v < 10 {
        (48 + v) as char
    } else {
        (55 + v) as char
    }
}

/// Sends messages through the WhatsApp app.
pub struct WhatsAppSender<'a> {
    pub adb: &'a AdbClient,
}

impl<'a> WhatsAppSender<'a> {
    pub fn new(adb: &'a AdbClient) -> (r: Self)
        ensures
            r.adb == adb,
    {
        WhatsAppSender { adb }
    }

    /// The command that opens the chat with `phone_number` (its digits) with
    /// `message` filled in; `InvalidPhone` when the number has no digits.
    pub fn send_to_phone(&self, phone_number: &str, message: &str) -> (r: Result<
        Vec<String>,
        WhatsAppError,
    >)
        ensures
            keep_digits(phone_number@).len() == 0 ==> r == Err::<Vec<String>, WhatsAppError>(
                WhatsAppError::InvalidPhone,
            ),
            keep_digits(phone_number@).len() > 0 ==> (r matches Ok(args)
                && crate::text::string_views(args@) == shell_argv(
                opt_view(self.adb.selected_device),
                send_cmd(keep_digits(phone_number@), message@),
            )),
    {
        let pv = chars_of(phone_number);
        let clean = keep_digits_exec(&pv);
        if clean.len() == 0 {
            return Err(WhatsAppError::InvalidPhone);
        }
        let encoded = urlencoding_simple(message);
        let mut cmd = chars_of(
            "am start -a android.intent.action.VIEW -d \"https://api.whatsapp.com/send?phone=",
        );
        append(&mut cmd, &clean);
        append_str(&mut cmd, "&text=");
        append_str(&mut cmd, encoded.as_str());
        append_str(&mut cmd, "\"");
        Ok(self.adb.shell_args(&cmd))
    }
}

} // verus!
