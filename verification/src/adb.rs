//! The ADB client: which `adb` executable to use, which device to talk to,
//! and the exact command lines sent to it. Running a command is I/O and is
//! done by the caller; this module builds the command lines and reads the
//! outputs that come back.
use vstd::prelude::*;
use crate::text::{
    append, append_str, chars_of, contains, contains_str, find, find_exec, int_text,
    int_text_exec, lemma_find, lines, lines_exec, nat_digits, nat_text_exec, parse_i32,
    parse_i32_exec, slice, split, split_exec, starts_with, starts_with_exec, string_of,
    string_views, trim, trim_exec, views, words, words_exec,
};

verus! {

/// A device as `adb devices -l` lists it.
#[derive(Debug, Clone)]
pub struct DeviceInfo {
    pub serial: String,
    pub state: String,
    pub model: Option<String>,
}

/// The `adb` executable and the device selected on it.
#[derive(Debug, Clone)]
pub struct AdbClient {
    pub adb_path: String,
    pub selected_device: Option<String>,
}

/// Why a request to `adb` failed.
#[derive(Debug, Clone, PartialEq, Eq)]
pub enum AdbError {
    /// No `adb` executable was found at any of the places looked at.
    NotFound,
    /// `adb devices` exited with failure; its standard error.
    ListFailed(String),
    /// An `adb shell` command failed with only an error output.
    ShellFailed(String),
    /// `adb exec-out screencap` exited with failure; its standard error.
    CaptureFailed(String),
    /// The command could not be started at all.
    Spawn(String),
}

/// How a place that may hold `adb` is checked.
#[derive(Debug, Clone, Copy, PartialEq, Eq)]
pub enum Probe {
    /// The file exists.
    Exists,
    /// Running it with `version` succeeds.
    RunsVersion,
}

/// A place where `adb` may be found, and how to check it.
#[derive(Debug, Clone)]
pub struct AdbCandidate {
    pub path: String,
    pub probe: Probe,
}

pub open spec fn opt_view(o: Option<String>) -> Option<Seq<char>> {
    match o {
        Some(s) => Some(s@),
        None => None,
    }
}

/// The places searched for `adb`, in order, each with the check that accepts it.
pub open spec fn candidate_places(
    custom_path: Option<Seq<char>>,
    local_appdata: Seq<char>,
    user_profile: Seq<char>,
) -> Seq<(Seq<char>, Probe)> {
    let fixed = seq![
        ("adb"@, Probe::RunsVersion),
        ("platform-tools\\adb.exe"@, Probe::Exists),
        (".\\platform-tools\\adb.exe"@, Probe::Exists),
        ("..\\platform-tools\\adb.exe"@, Probe::Exists),
        (local_appdata + "\\Android\\Sdk\\platform-tools\\adb.exe"@, Probe::Exists),
        (local_appdata + "\\Android\\platform-tools\\adb.exe"@, Probe::Exists),
        (user_profile + "\\AppData\\Local\\Android\\Sdk\\platform-tools\\adb.exe"@, Probe::Exists),
        (user_profile + "\\platform-tools\\adb.exe"@, Probe::Exists),
        ("C:\\platform-tools\\adb.exe"@, Probe::Exists),
        ("C:\\Android\\platform-tools\\adb.exe"@, Probe::Exists),
    ];
    match custom_path {
        Some(p) => seq![(p, Probe::Exists)] + fixed,
        None => fixed,
    }
}

/// The first index below `n` whose check passed.
pub open spec fn first_found(found: Seq<bool>, n: int) -> Option<int>
    decreases n,
{
    if n <= 0 {
        None
    } else {
        match first_found(found, n - 1) {
            Some(i) => Some(i),
            None => if n - 1 < found.len() && found[n - 1] {
                Some(n - 1)
            } else {
                None
            },
        }
    }
}

/// Once a passed check is found below `m`, it stays the first below any `n >= m`.
pub proof fn lemma_first_found_stays(found: Seq<bool>, m: int, n: int)
    requires
        m <= n,
        first_found(found, m) is Some,
    ensures
        first_found(found, n) == first_found(found, m),
    decreases n - m,
{
    if m < n {
        lemma_first_found_stays(found, m, n - 1);
    }
}

/// The arguments of `adb` that run `cmd` in a shell on the selected device.
pub open spec fn shell_argv(device: Option<Seq<char>>, cmd: Seq<char>) -> Seq<Seq<char>> {
    match device {
        Some(serial) => seq!["-s"@, serial, "shell"@, cmd],
        None => seq!["shell"@, cmd],
    }
}

/// `input text` needs these escaped; a space becomes `%s`.
pub open spec fn input_escape_char(c: char) -> Seq<char> {
    if c == ' ' {
        seq!['%', 's']
    } else if c == '\\' || c == '"' || c == '\'' || c == '&' || c == '<' || c == '>' || c == '('
        || c == ')' || c == ';' || c == '|' || c == '$' {
        seq!['\\', c]
    } else {
        seq![c]
    }
}

pub open spec fn input_escape(s: Seq<char>) -> Seq<char>
    decreases s.len(),
{
    if s.len() == 0 {
        Seq::empty()
    } else {
        input_escape(s.drop_last()) + input_escape_char(s.last())
    }
}

/// `cmd clipboard set text` needs backslashes and double quotes escaped.
pub open spec fn clipboard_escape_char(c: char) -> Seq<char> {
    if c == '\\' || c == '"' {
        seq!['\\', c]
    } else {
        seq![c]
    }
}

pub open spec fn clipboard_escape(s: Seq<char>) -> Seq<char>
    decreases s.len(),
{
    if s.len() == 0 {
        Seq::empty()
    } else {
        clipboard_escape(s.drop_last()) + clipboard_escape_char(s.last())
    }
}

pub open spec fn keyevent_cmd(keycode: int) -> Seq<char> {
    "input keyevent "@ + int_text(keycode)
}

pub open spec fn tap_cmd(x: int, y: int) -> Seq<char> {
    "input tap "@ + int_text(x) + " "@ + int_text(y)
}

pub open spec fn swipe_cmd(x1: int, y1: int, x2: int, y2: int, duration_ms: nat) -> Seq<char> {
    "input swipe "@ + int_text(x1) + " "@ + int_text(y1) + " "@ + int_text(x2) + " "@ + int_text(
        y2,
    ) + " "@ + nat_digits(duration_ms)
}

pub open spec fn input_text_cmd(text: Seq<char>) -> Seq<char> {
    "input text \""@ + input_escape(text) + "\""@
}

pub open spec fn clipboard_cmd(text: Seq<char>) -> Seq<char> {
    "cmd clipboard set text \""@ + clipboard_escape(text) + "\""@
}

/// What a shell command's outputs amount to: an error only when it failed,
/// wrote to standard error and wrote nothing to standard output.
pub open spec fn shell_result(success: bool, stdout: Seq<char>, stderr: Seq<char>) -> Result<
    Seq<char>,
    Seq<char>,
> {
    if !success && stderr.len() > 0 && stdout.len() == 0 {
        Err(stderr)
    } else {
        Ok(stdout)
    }
}

/// A `DeviceInfo` as plain values.
pub struct DeviceView {
    pub serial: Seq<char>,
    pub state: Seq<char>,
    pub model: Option<Seq<char>>,
}

impl DeviceInfo {
    pub open spec fn view(&self) -> DeviceView {
        DeviceView { serial: self.serial@, state: self.state@, model: opt_view(self.model) }
    }
}

/// The last `model:` value among the words after the first two.
pub open spec fn model_of(parts: Seq<Seq<char>>, n: int) -> Option<Seq<char>>
    decreases n,
{
    if n <= 2 || n > parts.len() {
        None
    } else {
        let p = parts[n - 1];
        if starts_with(p, "model:"@) {
            Some(p.skip(6))
        } else {
            model_of(parts, n - 1)
        }
    }
}

/// One line of `adb devices -l`, if it names a device.
pub open spec fn device_of_line(line: Seq<char>) -> Option<DeviceView> {
    let t = trim(line);
    let parts = words(t);
    if t.len() == 0 || parts.len() < 2 {
        None
    } else {
        Some(
            DeviceView { serial: parts[0], state: parts[1], model: model_of(parts, parts.len() as int) },
        )
    }
}

/// The devices named by the given lines, in order.
pub open spec fn devices_of_lines(ls: Seq<Seq<char>>) -> Seq<DeviceView>
    decreases ls.len(),
{
    if ls.len() == 0 {
        Seq::empty()
    } else {
        match device_of_line(ls.last()) {
            Some(d) => devices_of_lines(ls.drop_last()).push(d),
            None => devices_of_lines(ls.drop_last()),
        }
    }
}

/// The devices listed in the output of `adb devices -l` (its first line is a header).
pub open spec fn devices_of_output(stdout: Seq<char>) -> Seq<DeviceView> {
    let ls = lines(stdout);
    if ls.len() == 0 {
        Seq::empty()
    } else {
        devices_of_lines(ls.skip(1))
    }
}

/// Width and height from a line of `wm size` such as `Physical size: 1080x2400`.
pub open spec fn size_of_line(line: Seq<char>) -> Option<(i32, i32)> {
    match find(line, "size:"@) {
        None => None,
        Some(pos) => {
            let dims = split(trim(line.skip(pos + 5)), seq!['x']);
            if dims.len() == 2 {
                match (parse_i32(trim(dims[0])), parse_i32(trim(dims[1]))) {
                    (Some(w), Some(h)) => Some((w, h)),
                    _ => None,
                }
            } else {
                None
            }
        },
    }
}

/// The first line that gives a size, if any.
pub open spec fn size_of_lines(ls: Seq<Seq<char>>) -> Option<(i32, i32)>
    decreases ls.len(),
{
    if ls.len() == 0 {
        None
    } else {
        match size_of_line(ls[0]) {
            Some(s) => Some(s),
            None => size_of_lines(ls.drop_first()),
        }
    }
}

/// The screen size that `wm size` reports, or 1080x2400 when it gives none.
pub open spec fn screen_size_of(output: Seq<char>) -> (i32, i32) {
    match size_of_lines(lines(output)) {
        Some(s) => s,
        None => (1080, 2400),
    }
}

/// Whether the clipboard command was accepted: it ran and reported no error.
pub open spec fn clipboard_accepted(output: Result<Seq<char>, AdbError>) -> bool {
    match output {
        Ok(out) => !contains(out, "Error"@) && !contains(out, "Exception"@),
        Err(_) => false,
    }
}

pub open spec fn result_view(r: Result<String, AdbError>) -> Result<Seq<char>, AdbError> {
    match r {
        Ok(s) => Ok(s@),
        Err(e) => Err(e),
    }
}

/// Builds a `String` from a literal.
pub fn owned(s: &str) -> (r: String)
    ensures
        r@ == s@,
{
    let v = chars_of(s);
    string_of(&v)
}

/// The `input text` form of `s`.
pub fn input_escape_exec(s: &Vec<char>) -> (r: Vec<char>)
    ensures
        r@ == input_escape(s@),
{
    let mut r: Vec<char> = Vec::new();
    let mut i: usize = 0;
    while i < s.len()
        invariant
            i <= s.len(),
            r@ == input_escape(s@.take(i as int)),
        decreases s.len() - i,
    {
        let c = s[i];
        assert(s@.take(i + 1).drop_last() == s@.take(i as int));
        let ghost before = r@;
        if c == ' ' {
            r.push('%');
            r.push('s');
        } else if c == '\\' || c == '"' || c == '\'' || c == '&' || c == '<' || c == '>' || c
            == '(' || c == ')' || c == ';' || c == '|' || c == '$' {
            r.push('\\');
            r.push(c);
        } else {
            r.push(c);
        }
        assert(r@ =~= before + input_escape_char(c));
        i += 1;
    }
    assert(s@.take(s.len() as int) == s@);
    r
}

/// No space of the text reaches `input text` as a space: each is sent as `%s`,
/// so the text stays one argument of the shell command.
pub proof fn law_input_escape_no_space(s: Seq<char>)
    ensures
        forall|i: int| 0 <= i < input_escape(s).len() ==> #[trigger] input_escape(s)[i] != ' ',
    decreases s.len(),
{
    if s.len() > 0 {
        law_input_escape_no_space(s.drop_last());
        let a = input_escape(s.drop_last());
        let b = input_escape_char(s.last());
        assert forall|i: int| 0 <= i < (a + b).len() implies (a + b)[i] != ' ' by {
            if i < a.len() {
                assert((a + b)[i] == a[i]);
            } else {
                assert((a + b)[i] == b[i - a.len()]);
            }
        };
    }
}

/// The `cmd clipboard` form of `s`.
pub fn clipboard_escape_exec(s: &Vec<char>) -> (r: Vec<char>)
    ensures
        r@ == clipboard_escape(s@),
{
    let mut r: Vec<char> = Vec::new();
    let mut i: usize = 0;
    while i < s.len()
        invariant
            i <= s.len(),
            r@ == clipboard_escape(s@.take(i as int)),
        decreases s.len() - i,
    {
        let c = s[i];
        assert(s@.take(i + 1).drop_last() == s@.take(i as int));
        let ghost before = r@;
        if c == '\\' || c == '"' {
            r.push('\\');
            r.push(c);
        } else {
            r.push(c);
        }
        assert(r@ =~= before + clipboard_escape_char(c));
        i += 1;
    }
    assert(s@.take(s.len() as int) == s@);
    r
}

/// `lit` followed by the decimal form of `v`.
fn with_int(lit: &str, v: i32) -> (r: Vec<char>)
    ensures
        r@ == lit@ + int_text(v as int),
{
    let mut r = chars_of(lit);
    let d = int_text_exec(v);
    append(&mut r, &d);
    r
}

impl AdbClient {
    /// The places searched for `adb`, in the order they are tried.
    pub fn candidates(custom_path: Option<&str>, local_appdata: &str, user_profile: &str) -> (r:
        Vec<AdbCandidate>)
        ensures
            r@.len() == candidate_places(
                match custom_path {
                    Some(p) => Some(p@),
                    None => None,
                },
                local_appdata@,
                user_profile@,
            ).len(),
            forall|i: int|
                0 <= i < r@.len() ==> (#[trigger] r@[i]).path@ == candidate_places(
                    match custom_path {
                        Some(p) => Some(p@),
                        None => None,
                    },
                    local_appdata@,
                    user_profile@,
                )[i].0 && r@[i].probe == candidate_places(
                    match custom_path {
                        Some(p) => Some(p@),
                        None => None,
                    },
                    local_appdata@,
                    user_profile@,
                )[i].1,
    {
        let mut r: Vec<AdbCandidate> = Vec::new();
        match custom_path {
            Some(p) => {
                r.push(AdbCandidate { path: owned(p), probe: Probe::Exists });
            },
            None => {},
        }
        r.push(AdbCandidate { path: owned("adb"), probe: Probe::RunsVersion });
        r.push(AdbCandidate { path: owned("platform-tools\\adb.exe"), probe: Probe::Exists });
        r.push(AdbCandidate { path: owned(".\\platform-tools\\adb.exe"), probe: Probe::Exists });
        r.push(AdbCandidate { path: owned("..\\platform-tools\\adb.exe"), probe: Probe::Exists });
        let mut a = chars_of(local_appdata);
        append_str(&mut a, "\\Android\\Sdk\\platform-tools\\adb.exe");
        r.push(AdbCandidate { path: string_of(&a), probe: Probe::Exists });
        let mut b = chars_of(local_appdata);
        append_str(&mut b, "\\Android\\platform-tools\\adb.exe");
        r.push(AdbCandidate { path: string_of(&b), probe: Probe::Exists });
        let mut c = chars_of(user_profile);
        append_str(&mut c, "\\AppData\\Local\\Android\\Sdk\\platform-tools\\adb.exe");
        r.push(AdbCandidate { path: string_of(&c), probe: Probe::Exists });
        let mut d = chars_of(user_profile);
        append_str(&mut d, "\\platform-tools\\adb.exe");
        r.push(AdbCandidate { path: string_of(&d), probe: Probe::Exists });
        r.push(AdbCandidate { path: owned("C:\\platform-tools\\adb.exe"), probe: Probe::Exists });
        r.push(
            AdbCandidate { path: owned("C:\\Android\\platform-tools\\adb.exe"), probe: Probe::Exists },
        );
        r
    }

    /// A client on the first candidate place whose check passed (`found[i]` for
    /// `candidates[i]`), with no device selected; `NotFound` when none passed.
    pub fn new(candidates: &Vec<AdbCandidate>, found: &Vec<bool>) -> (r: Result<Self, AdbError>)
        ensures
            match first_found(found@, candidates@.len() as int) {
                Some(i) => r matches Ok(c) && c.adb_path@ == candidates@[i].path@
                    && c.selected_device is None,
                None => r == Err::<Self, AdbError>(AdbError::NotFound),
            },
    {
        let mut i: usize = 0;
        while i < candidates.len()
            invariant
                i <= candidates.len(),
                first_found(found@, i as int) is None,
            decreases candidates.len() - i,
        {
            if i < found.len() && found[i] {
                proof {
                    lemma_first_found_stays(found@, i + 1, candidates@.len() as int);
                }
                let p = candidates[i].path.clone();
                return Ok(AdbClient { adb_path: p, selected_device: None });
            }
            i += 1;
        }
        Err(AdbError::NotFound)
    }

    /// Selects the device that later commands go to.
    pub fn set_device(&mut self, serial: String)
        ensures
            final(self).selected_device == Some(serial),
            final(self).adb_path == old(self).adb_path,
    {
        self.selected_device = Some(serial);
    }

    /// The arguments of `adb` that run `cmd` in a shell on the selected device.
    pub fn shell_args(&self, cmd: &Vec<char>) -> (r: Vec<String>)
        ensures
            string_views(r@) == shell_argv(opt_view(self.selected_device), cmd@),
    {
        let mut r: Vec<String> = Vec::new();
        match &self.selected_device {
            Some(serial) => {
                r.push(owned("-s"));
                r.push(serial.clone());
            },
            None => {},
        }
        r.push(owned("shell"));
        r.push(string_of(cmd));
        assert(string_views(r@) =~= shell_argv(opt_view(self.selected_device), cmd@));
        r
    }

    /// What a finished shell command returned: its standard output, or its
    /// standard error when it failed and wrote nothing else.
    pub fn execute_shell(success: bool, stdout: String, stderr: String) -> (r: Result<
        String,
        AdbError,
    >)
        ensures
            match shell_result(success, stdout@, stderr@) {
                Ok(out) => r matches Ok(s) && s@ == out,
                Err(err) => r matches Err(AdbError::ShellFailed(e)) && e@ == err,
            },
    {
        if !success && !stderr.as_str().is_empty() && stdout.as_str().is_empty() {
            Err(AdbError::ShellFailed(stderr))
        } else {
            Ok(stdout)
        }
    }

    /// The arguments of `adb` that capture the screen as a PNG image.
    pub fn capture_screen_args(&self) -> (r: Vec<String>)
        ensures
            string_views(r@) == (match opt_view(self.selected_device) {
                Some(serial) => seq!["-s"@, serial],
                None => Seq::<Seq<char>>::empty(),
            }) + seq!["exec-out"@, "screencap"@, "-p"@],
    {
        let mut r: Vec<String> = Vec::new();
        match &self.selected_device {
            Some(serial) => {
                r.push(owned("-s"));
                r.push(serial.clone());
            },
            None => {},
        }
        r.push(owned("exec-out"));
        r.push(owned("screencap"));
        r.push(owned("-p"));
        assert(string_views(r@) =~= (match opt_view(self.selected_device) {
            Some(serial) => seq!["-s"@, serial],
            None => Seq::<Seq<char>>::empty(),
        }) + seq!["exec-out"@, "screencap"@, "-p"@]);
        r
    }

    /// The image of a finished screen capture, or its standard error when it failed.
    pub fn capture_screen_bytes(success: bool, stdout: Vec<u8>, stderr: String) -> (r: Result<
        Vec<u8>,
        AdbError,
    >)
        ensures
            success ==> r == Ok::<Vec<u8>, AdbError>(stdout),
            !success ==> (r matches Err(AdbError::CaptureFailed(e)) && e@ == stderr@),
    {
        if success {
            Ok(stdout)
        } else {
            Err(AdbError::CaptureFailed(stderr))
        }
    }

    /// The arguments of `adb` that list the connected devices.
    pub fn list_devices_args() -> (r: Vec<String>)
        ensures
            string_views(r@) == seq!["devices"@, "-l"@],
    {
        let mut r: Vec<String> = Vec::new();
        r.push(owned("devices"));
        r.push(owned("-l"));
        assert(string_views(r@) =~= seq!["devices"@, "-l"@]);
        r
    }

    /// The devices listed by a finished `adb devices -l`, or its standard error when it failed.
    pub fn list_devices(success: bool, stdout: &str, stderr: String) -> (r: Result<
        Vec<DeviceInfo>,
        AdbError,
    >)
        ensures
            !success ==> (r matches Err(AdbError::ListFailed(e)) && e@ == stderr@),
            success ==> (r matches Ok(ds) && ds@.len() == devices_of_output(stdout@).len() && (
            forall|i: int|
                0 <= i < ds@.len() ==> (#[trigger] ds@[i]).view() == devices_of_output(stdout@)[i])),
    {
        if !success {
            return Err(AdbError::ListFailed(stderr));
        }
        Ok(parse_devices(stdout))
    }

    /// `dumpsys notification --noredact` on the device.
    pub fn get_notifications_raw(&self) -> (r: Vec<String>)
        ensures
            string_views(r@) == shell_argv(
                opt_view(self.selected_device),
                "dumpsys notification --noredact"@,
            ),
    {
        let c = chars_of("dumpsys notification --noredact");
        self.shell_args(&c)
    }

    /// Sends a key event with the given Android key code.
    pub fn send_key_event(&self, keycode: i32) -> (r: Vec<String>)
        ensures
            string_views(r@) == shell_argv(opt_view(self.selected_device), keyevent_cmd(keycode as int)),
    {
        let c = with_int("input keyevent ", keycode);
        self.shell_args(&c)
    }

    /// Taps the screen at `(x, y)`.
    pub fn tap(&self, x: i32, y: i32) -> (r: Vec<String>)
        ensures
            string_views(r@) == shell_argv(opt_view(self.selected_device), tap_cmd(x as int, y as int)),
    {
        let mut c = with_int("input tap ", x);
        let tail = with_int(" ", y);
        append(&mut c, &tail);
        assert(c@ =~= tap_cmd(x as int, y as int));
        self.shell_args(&c)
    }

    /// Types `text` into the focused field.
    pub fn input_text(&self, text: &str) -> (r: Vec<String>)
        ensures
            string_views(r@) == shell_argv(opt_view(self.selected_device), input_text_cmd(text@)),
    {
        let t = chars_of(text);
        let e = input_escape_exec(&t);
        let mut c = chars_of("input text \"");
        append(&mut c, &e);
        append_str(&mut c, "\"");
        assert(c@ =~= input_text_cmd(text@));
        self.shell_args(&c)
    }

    /// Commands that keep the device awake and unlocked while on USB; the
    /// outcome of each is ignored.
    pub fn setup_always_on(&self) -> (r: Vec<Vec<String>>)
        ensures
            r@.len() == 5,
            string_views(r@[0]@) == shell_argv(opt_view(self.selected_device), keyevent_cmd(224)),
            string_views(r@[1]@) == shell_argv(opt_view(self.selected_device), "wm dismiss-keyguard"@),
            string_views(r@[2]@) == shell_argv(opt_view(self.selected_device), "svc power stayon true"@),
            string_views(r@[3]@) == shell_argv(
                opt_view(self.selected_device),
                "settings put global stay_on_while_plugged_in 3"@,
            ),
            string_views(r@[4]@) == shell_argv(
                opt_view(self.selected_device),
                "settings put system screen_off_timeout 2147483647"@,
            ),
    {
        let mut r: Vec<Vec<String>> = Vec::new();
        r.push(self.send_key_event(224));
        r.push(self.shell_args(&chars_of("wm dismiss-keyguard")));
        r.push(self.shell_args(&chars_of("svc power stayon true")));
        r.push(self.shell_args(&chars_of("settings put global stay_on_while_plugged_in 3")));
        r.push(self.shell_args(&chars_of("settings put system screen_off_timeout 2147483647")));
        r
    }

    /// Commands that wake the device and dismiss the lock screen; the outcome
    /// of each is ignored.
    pub fn ensure_device_awake(&self) -> (r: Vec<Vec<String>>)
        ensures
            r@.len() == 3,
            string_views(r@[0]@) == shell_argv(opt_view(self.selected_device), keyevent_cmd(224)),
            string_views(r@[1]@) == shell_argv(opt_view(self.selected_device), "wm dismiss-keyguard"@),
            string_views(r@[2]@) == shell_argv(opt_view(self.selected_device), "svc power stayon true"@),
    {
        let mut r: Vec<Vec<String>> = Vec::new();
        r.push(self.send_key_event(224));
        r.push(self.shell_args(&chars_of("wm dismiss-keyguard")));
        r.push(self.shell_args(&chars_of("svc power stayon true")));
        r
    }

    /// Puts `text` on the device clipboard; `paste_or_type` says what follows.
    pub fn set_clipboard_and_paste(&self, text: &str) -> (r: Vec<String>)
        ensures
            string_views(r@) == shell_argv(opt_view(self.selected_device), clipboard_cmd(text@)),
    {
        let t = chars_of(text);
        let e = clipboard_escape_exec(&t);
        let mut c = chars_of("cmd clipboard set text \"");
        append(&mut c, &e);
        append_str(&mut c, "\"");
        assert(c@ =~= clipboard_cmd(text@));
        self.shell_args(&c)
    }

    /// Whether the clipboard command was accepted: it ran and its output
    /// reports no `Error` nor `Exception`.
    pub fn clipboard_was_accepted(clipboard_output: &Result<String, AdbError>) -> (r: bool)
        ensures
            r == clipboard_accepted(result_view(*clipboard_output)),
    {
        match clipboard_output {
            Ok(out) => {
                let o = chars_of(out.as_str());
                !contains_str(&o, "Error") && !contains_str(&o, "Exception")
            },
            Err(_) => false,
        }
    }

    /// After the clipboard command: paste (key 279) when it was accepted,
    /// otherwise type the text with `input text`.
    pub fn paste_or_type(&self, text: &str, clipboard_output: &Result<String, AdbError>) -> (r:
        Vec<String>)
        ensures
            clipboard_accepted(result_view(*clipboard_output)) ==> string_views(r@) == shell_argv(
                opt_view(self.selected_device),
                keyevent_cmd(279),
            ),
            !clipboard_accepted(result_view(*clipboard_output)) ==> string_views(r@) == shell_argv(
                opt_view(self.selected_device),
                input_text_cmd(text@),
            ),
    {
        if Self::clipboard_was_accepted(clipboard_output) {
            self.send_key_event(279)
        } else {
            self.input_text(text)
        }
    }

    /// Hides the on-screen keyboard (key 111).
    pub fn dismiss_keyboard(&self) -> (r: Vec<String>)
        ensures
            string_views(r@) == shell_argv(opt_view(self.selected_device), keyevent_cmd(111)),
    {
        self.send_key_event(111)
    }

    /// `wm size` on the device.
    pub fn screen_size_args(&self) -> (r: Vec<String>)
        ensures
            string_views(r@) == shell_argv(opt_view(self.selected_device), "wm size"@),
    {
        self.shell_args(&chars_of("wm size"))
    }

    /// The screen size from the result of `wm size`: the first line holding
    /// `size:` followed by `<width>x<height>`, or 1080x2400 when none does.
    pub fn get_screen_size(output: Result<String, AdbError>) -> (r: Result<(i32, i32), AdbError>)
        ensures
            match output {
                Ok(out) => r == Ok::<(i32, i32), AdbError>(screen_size_of(out@)),
                Err(e) => r == Err::<(i32, i32), AdbError>(e),
            },
    {
        match output {
            Ok(out) => {
                let size = parse_screen_size(out.as_str());
                Ok(size)
            },
            Err(e) => Err(e),
        }
    }

    /// The two commands that read the screen's view hierarchy: the dump, whose
    /// outcome is ignored, then the `cat` whose output is the XML.
    pub fn dump_ui_hierarchy(&self) -> (r: (Vec<String>, Vec<String>))
        ensures
            string_views(r.0@) == shell_argv(
                opt_view(self.selected_device),
                "uiautomator dump /data/local/tmp/window_dump.xml"@,
            ),
            string_views(r.1@) == shell_argv(
                opt_view(self.selected_device),
                "cat /data/local/tmp/window_dump.xml"@,
            ),
    {
        let a = self.shell_args(&chars_of("uiautomator dump /data/local/tmp/window_dump.xml"));
        let b = self.shell_args(&chars_of("cat /data/local/tmp/window_dump.xml"));
        (a, b)
    }

    /// Swipes from `(x1, y1)` to `(x2, y2)` over `duration_ms` milliseconds.
    pub fn swipe(&self, x1: i32, y1: i32, x2: i32, y2: i32, duration_ms: u32) -> (r: Vec<String>)
        ensures
            string_views(r@) == shell_argv(
                opt_view(self.selected_device),
                swipe_cmd(x1 as int, y1 as int, x2 as int, y2 as int, duration_ms as nat),
            ),
    {
        let mut c = with_int("input swipe ", x1);
        append(&mut c, &with_int(" ", y1));
        append(&mut c, &with_int(" ", x2));
        append(&mut c, &with_int(" ", y2));
        append_str(&mut c, " ");
        append(&mut c, &nat_text_exec(duration_ms as u64));
        assert(c@ =~= swipe_cmd(x1 as int, y1 as int, x2 as int, y2 as int, duration_ms as nat));
        self.shell_args(&c)
    }
}

/// The device named by one line of `adb devices -l`.
fn device_of_line_exec(line: &Vec<char>) -> (r: Option<DeviceInfo>)
    ensures
        match device_of_line(line@) {
            Some(d) => r matches Some(x) && x.view() == d,
            None => r is None,
        },
{
    let t = trim_exec(line);
    let parts = words_exec(&t);
    if t.len() == 0 || parts.len() < 2 {
        return None;
    }
    let ghost pv = views(parts@);
    let mut model: Option<String> = None;
    let mut k: usize = 2;
    let prefix = chars_of("model:");
    while k < parts.len()
        invariant
            2 <= k <= parts.len(),
            pv == views(parts@),
            prefix@ == "model:"@,
            (match model {
                Some(m) => Some(m@),
                None => None,
            }) == model_of(pv, k as int),
        decreases parts.len() - k,
    {
        assert(pv[k as int] == parts@[k as int]@);
        proof {
            reveal_strlit("model:");
        }
        if starts_with_exec(&parts[k], &prefix) {
            let rest = slice(&parts[k], 6, parts[k].len());
            assert(rest@ =~= pv[k as int].skip(6));
            model = Some(string_of(&rest));
        }
        k += 1;
    }
    Some(DeviceInfo { serial: string_of(&parts[0]), state: string_of(&parts[1]), model })
}

/// The devices listed in the output of `adb devices -l`.
pub fn parse_devices(stdout: &str) -> (r: Vec<DeviceInfo>)
    ensures
        r@.len() == devices_of_output(stdout@).len(),
        forall|i: int| 0 <= i < r@.len() ==> (#[trigger] r@[i]).view() == devices_of_output(stdout@)[i],
{
    let s = chars_of(stdout);
    let ls = lines_exec(&s);
    let ghost all = views(ls@);
    let mut r: Vec<DeviceInfo> = Vec::new();
    if ls.len() == 0 {
        return r;
    }
    let mut i: usize = 1;
    while i < ls.len()
        invariant
            1 <= i <= ls.len(),
            all == views(ls@),
            all == lines(s@),
            s@ == stdout@,
            r@.len() == devices_of_lines(all.subrange(1, i as int)).len(),
            forall|j: int|
                0 <= j < r@.len() ==> (#[trigger] r@[j]).view() == devices_of_lines(
                    all.subrange(1, i as int),
                )[j],
        decreases ls.len() - i,
    {
        assert(all.subrange(1, i + 1).drop_last() =~= all.subrange(1, i as int));
        assert(all.subrange(1, i + 1).last() == ls@[i as int]@);
        match device_of_line_exec(&ls[i]) {
            Some(d) => {
                r.push(d);
            },
            None => {},
        }
        i += 1;
    }
    assert(all.subrange(1, ls.len() as int) =~= all.skip(1));
    r
}

/// The screen size that the output of `wm size` gives.
pub fn parse_screen_size(output: &str) -> (r: (i32, i32))
    ensures
        r == screen_size_of(output@),
{
    let s = chars_of(output);
    let ls = lines_exec(&s);
    let ghost all = views(ls@);
    let key = chars_of("size:");
    let mut x = Vec::new();
    x.push('x');
    assert(x@ =~= seq!['x']);
    let mut i: usize = 0;
    assert(all.skip(0) =~= all);
    while i < ls.len()
        invariant
            i <= ls.len(),
            all == views(ls@),
            all == lines(output@),
            key@ == "size:"@,
            x@ == seq!['x'],
            size_of_lines(all) == size_of_lines(all.skip(i as int)),
        decreases ls.len() - i,
    {
        let line = &ls[i];
        assert(all.skip(i as int)[0] == line@);
        assert(all.skip(i as int).drop_first() =~= all.skip(i + 1));
        proof {
            lemma_find(line@, key@);
            reveal_strlit("size:");
        }
        match find_exec(line, &key) {
            None => {},
            Some(pos) => {
                let rest = slice(line, pos + 5, line.len());
                assert(rest@ =~= line@.skip(pos + 5));
                let t = trim_exec(&rest);
                let dims = split_exec(&t, &x);
                if dims.len() == 2 {
                    let w = parse_i32_exec(&trim_exec(&dims[0]));
                    let h = parse_i32_exec(&trim_exec(&dims[1]));
                    match (w, h) {
                        (Some(w), Some(h)) => {
                            return (w, h);
                        },
                        _ => {},
                    }
                }
            },
        }
        i += 1;
    }
    (1080, 2400)
}

} // verus!
