//! Opening a chat by name: a sequence of device commands, each decided from
//! the outcome of the one before.
use vstd::prelude::*;
use crate::adb::{
    input_text_cmd, keyevent_cmd, opt_view, screen_size_of, shell_argv, tap_cmd, AdbClient,
    AdbError,
};
use crate::matching::{all_captures, captures_view, group_chars, group_text, groups_view, matches_of};
use crate::text::{chars_of, half, midpoint, parse_i32, parse_i32_exec, string_views};

verus! {

/// The search button of the main screen, then its bounds.
pub const SEARCH_BUTTON_PATTERN: &'static str = "<node[^>]*?(?:resource-id=\"[^\"]*?(?:menuitem_search|search_holder|search_src_text)\"|content-desc=\"(?:Buscar|Search)\")[^>]*?bounds=\"\\[(\\d+),(\\d+)\\]\\[(\\d+),(\\d+)\\]\"";

/// A chat among the search results, then its bounds.
pub const CHAT_RESULT_PATTERN: &'static str = "<node[^>]*?resource-id=\"[^\"]*?(?:conversations_row_contact_name|conversation_contact_name|name)\"[^>]*?bounds=\"\\[(\\d+),(\\d+)\\]\\[(\\d+),(\\d+)\\]\"";

/// The centre of the bounds in the first match, when all four numbers parse.
pub open spec fn first_center(ms: Seq<Seq<Option<Seq<char>>>>) -> Option<(i32, i32)> {
    if ms.len() == 0 {
        None
    } else {
        match (
            parse_i32(group_text(ms[0], 1)),
            parse_i32(group_text(ms[0], 2)),
            parse_i32(group_text(ms[0], 3)),
            parse_i32(group_text(ms[0], 4)),
        ) {
            (Some(x1), Some(y1), Some(x2), Some(y2)) => Some(
                (half(x1 + x2) as i32, half(y1 + y2) as i32),
            ),
            _ => None,
        }
    }
}

/// Where the commands of opening a chat stand: the last command that ran.
#[derive(Debug, Clone, Copy, PartialEq, Eq, Structural)]
pub enum OpenChatState {
    /// Nothing ran yet.
    Start,
    /// WhatsApp's main screen was brought up.
    MainOpened,
    /// The screen was dumped to look for the search button.
    SearchDumped,
    /// The dump was read.
    SearchRead,
    /// The search button was tapped.
    SearchTapped,
    /// The search key was sent instead.
    SearchKeyed,
    /// The name was typed.
    QueryTyped,
    /// The results were dumped.
    ResultsDumped,
    /// The results were read.
    ResultsRead,
    /// The first result was tapped.
    ResultTapped,
    /// The screen size was read for the fallback tap.
    SizeRead,
    /// The fallback position was tapped.
    FallbackTapped,
    /// Done.
    Finished,
}

/// What to do next.
#[derive(Debug)]
pub enum NavAction {
    /// Wait `pause_ms`, then run `adb` with these arguments and report its outcome.
    Run { args: Vec<String>, pause_ms: u64 },
    /// Wait `pause_ms`; opening the chat ended with this result.
    Finish { result: Result<(), AdbError>, pause_ms: u64 },
}

/// A `NavAction` as plain values.
pub enum NavActionView {
    Run { args: Seq<Seq<char>>, pause_ms: u64 },
    Finish { result: Result<(), AdbError>, pause_ms: u64 },
}

pub open spec fn nav_view(a: NavAction) -> NavActionView {
    match a {
        NavAction::Run { args, pause_ms } => NavActionView::Run { args: string_views(args@), pause_ms },
        NavAction::Finish { result, pause_ms } => NavActionView::Finish { result, pause_ms },
    }
}

pub open spec fn dump_cmd() -> Seq<char> {
    "uiautomator dump /data/local/tmp/window_dump.xml"@
}

pub open spec fn cat_cmd() -> Seq<char> {
    "cat /data/local/tmp/window_dump.xml"@
}

pub open spec fn run(dev: Option<Seq<char>>, cmd: Seq<char>, pause_ms: u64) -> NavActionView {
    NavActionView::Run { args: shell_argv(dev, cmd), pause_ms }
}

/// The next state and action after `last`, the outcome of the command run in `state`.
pub open spec fn open_chat_step(
    dev: Option<Seq<char>>,
    name: Seq<char>,
    state: OpenChatState,
    last: Result<Seq<char>, AdbError>,
) -> (OpenChatState, NavActionView) {
    match state {
        OpenChatState::Start => (
            OpenChatState::MainOpened,
            run(dev, "am start -n com.whatsapp/.Main"@, 0),
        ),
        OpenChatState::MainOpened => match last {
            Err(e) => (OpenChatState::Finished, NavActionView::Finish { result: Err(e), pause_ms: 0 }),
            Ok(_) => (OpenChatState::SearchDumped, run(dev, dump_cmd(), 1200)),
        },
        OpenChatState::SearchDumped => (OpenChatState::SearchRead, run(dev, cat_cmd(), 0)),
        OpenChatState::SearchRead => {
            let xml = match last {
                Ok(x) => x,
                Err(_) => Seq::empty(),
            };
            match first_center(all_captures(SEARCH_BUTTON_PATTERN@, xml)) {
                Some((x, y)) => (OpenChatState::SearchTapped, run(dev, tap_cmd(x as int, y as int), 0)),
                None => (OpenChatState::SearchKeyed, run(dev, keyevent_cmd(84), 0)),
            }
        },
        OpenChatState::SearchTapped => match last {
            Err(e) => (OpenChatState::Finished, NavActionView::Finish { result: Err(e), pause_ms: 0 }),
            Ok(_) => (OpenChatState::QueryTyped, run(dev, input_text_cmd(name), 800)),
        },
        OpenChatState::SearchKeyed => (OpenChatState::QueryTyped, run(dev, input_text_cmd(name), 800)),
        OpenChatState::QueryTyped => match last {
            Err(e) => (OpenChatState::Finished, NavActionView::Finish { result: Err(e), pause_ms: 0 }),
            Ok(_) => (OpenChatState::ResultsDumped, run(dev, dump_cmd(), 1500)),
        },
        OpenChatState::ResultsDumped => (OpenChatState::ResultsRead, run(dev, cat_cmd(), 0)),
        OpenChatState::ResultsRead => match last {
            Err(e) => (OpenChatState::Finished, NavActionView::Finish { result: Err(e), pause_ms: 0 }),
            Ok(xml) => match first_center(all_captures(CHAT_RESULT_PATTERN@, xml)) {
                Some((x, y)) => (OpenChatState::ResultTapped, run(dev, tap_cmd(x as int, y as int), 0)),
                None => (OpenChatState::SizeRead, run(dev, "wm size"@, 0)),
            },
        },
        OpenChatState::ResultTapped => match last {
            Err(e) => (OpenChatState::Finished, NavActionView::Finish { result: Err(e), pause_ms: 0 }),
            Ok(_) => (OpenChatState::Finished, NavActionView::Finish { result: Ok(()), pause_ms: 1500 }),
        },
        OpenChatState::SizeRead => {
            let w = match last {
                Ok(out) => screen_size_of(out).0,
                Err(_) => 1080,
            };
            (OpenChatState::FallbackTapped, run(dev, tap_cmd(half(w as int), 350), 0))
        },
        OpenChatState::FallbackTapped => match last {
            Err(e) => (OpenChatState::Finished, NavActionView::Finish { result: Err(e), pause_ms: 0 }),
            Ok(_) => (OpenChatState::Finished, NavActionView::Finish { result: Ok(()), pause_ms: 1500 }),
        },
        OpenChatState::Finished => (
            OpenChatState::Finished,
            NavActionView::Finish { result: Ok(()), pause_ms: 0 },
        ),
    }
}

/// How many commands at most remain from a state.
pub open spec fn steps_left(s: OpenChatState) -> nat {
    match s {
        OpenChatState::Start => 9,
        OpenChatState::MainOpened => 8,
        OpenChatState::SearchDumped => 7,
        OpenChatState::SearchRead => 6,
        OpenChatState::SearchTapped => 5,
        OpenChatState::SearchKeyed => 5,
        OpenChatState::QueryTyped => 4,
        OpenChatState::ResultsDumped => 3,
        OpenChatState::ResultsRead => 2,
        OpenChatState::ResultTapped => 0,
        OpenChatState::SizeRead => 1,
        OpenChatState::FallbackTapped => 0,
        OpenChatState::Finished => 0,
    }
}

/// Opening a chat always ends: each step before the end gets closer to it, and
/// a step that finishes leads to `Finished`.
pub proof fn law_open_chat_terminates(
    dev: Option<Seq<char>>,
    name: Seq<char>,
    state: OpenChatState,
    last: Result<Seq<char>, AdbError>,
)
    requires
        state != OpenChatState::Finished,
    ensures
        ({
            let (next, action) = open_chat_step(dev, name, state, last);
            &&& (action is Run ==> next != OpenChatState::Finished && steps_left(next) < steps_left(
                state,
            ) + (if state == OpenChatState::ResultsRead {
                1nat
            } else {
                0nat
            }))
            &&& (action is Finish <==> next == OpenChatState::Finished)
        }),
{
}

/// Opening a chat fails only with the error of the command that just failed,
/// and succeeds only after a command that succeeded; once the tap on the first
/// result, or the fallback tap, succeeds, it finishes with success after 1500 ms.
pub proof fn law_open_chat_outcome(
    dev: Option<Seq<char>>,
    name: Seq<char>,
    state: OpenChatState,
    last: Result<Seq<char>, AdbError>,
)
    ensures
        open_chat_step(dev, name, state, last).1 matches NavActionView::Finish { result: Err(e), .. }
            ==> last == Err::<Seq<char>, AdbError>(e),
        open_chat_step(dev, name, state, last).1 matches NavActionView::Finish { result: Ok(_), .. }
            ==> (last is Ok || state == OpenChatState::Finished),
        (state == OpenChatState::ResultTapped || state == OpenChatState::FallbackTapped) && last is Ok
            ==> open_chat_step(dev, name, state, last) == (
            OpenChatState::Finished,
            NavActionView::Finish { result: Ok(()), pause_ms: 1500 },
        ),
{
}

/// The centre of the bounds in the first match, when all four numbers parse.
fn first_center_exec(ms: &Vec<Vec<Option<String>>>) -> (r: Option<(i32, i32)>)
    ensures
        r == first_center(captures_view(ms@)),
{
    if ms.len() == 0 {
        return None;
    }
    assert(captures_view(ms@)[0] == groups_view(ms@[0]));
    let c = &ms[0];
    match (
        parse_i32_exec(&group_chars(c, 1)),
        parse_i32_exec(&group_chars(c, 2)),
        parse_i32_exec(&group_chars(c, 3)),
        parse_i32_exec(&group_chars(c, 4)),
    ) {
        (Some(x1), Some(y1), Some(x2), Some(y2)) => Some((midpoint(x1, x2), midpoint(y1, y2))),
        _ => None,
    }
}

/// Opens chats and scrolls conversations.
pub struct WhatsAppNavigator<'a> {
    pub adb: &'a AdbClient,
}

impl<'a> WhatsAppNavigator<'a> {
    pub fn new(adb: &'a AdbClient) -> (r: Self)
        ensures
            r.adb == adb,
    {
        WhatsAppNavigator { adb }
    }

    /// Where the search button is on the main screen, if the dump shows it.
    pub fn find_search_button(xml: &str) -> (r: Option<(i32, i32)>)
        ensures
            r == first_center(all_captures(SEARCH_BUTTON_PATTERN@, xml@)),
    {
        let m = matches_of(SEARCH_BUTTON_PATTERN, xml);
        first_center_exec(&m)
    }

    /// Where the first chat among the search results is, if the dump shows one.
    pub fn find_first_chat_result(xml: &str) -> (r: Option<(i32, i32)>)
        ensures
            r == first_center(all_captures(CHAT_RESULT_PATTERN@, xml@)),
    {
        let m = matches_of(CHAT_RESULT_PATTERN, xml);
        first_center_exec(&m)
    }

    /// One step of opening the chat or group named `name_or_group`: from the
    /// state reached and the outcome of its command, the next state and action.
    /// Start in `Start` (the outcome is then ignored) and stop at `Finish`.
    pub fn open_chat_by_name(
        &self,
        name_or_group: &str,
        state: OpenChatState,
        last: Result<String, AdbError>,
    ) -> (r: (OpenChatState, NavAction))
        ensures
            ({
                let (s, a) = open_chat_step(
                    opt_view(self.adb.selected_device),
                    name_or_group@,
                    state,
                    crate::adb::result_view(last),
                );
                r.0 == s && nav_view(r.1) == a
            }),
    {
        let adb = self.adb;
        match state {
            OpenChatState::Start => (
                OpenChatState::MainOpened,
                NavAction::Run {
                    args: adb.shell_args(&chars_of("am start -n com.whatsapp/.Main")),
                    pause_ms: 0,
                },
            ),
            OpenChatState::MainOpened => match last {
                Err(e) => (OpenChatState::Finished, NavAction::Finish { result: Err(e), pause_ms: 0 }),
                Ok(_) => (OpenChatState::SearchDumped, NavAction::Run { args: adb.dump_ui_hierarchy().0, pause_ms: 1200 }),
            },
            OpenChatState::SearchDumped => (
                OpenChatState::SearchRead,
                NavAction::Run { args: adb.dump_ui_hierarchy().1, pause_ms: 0 },
            ),
            OpenChatState::SearchRead => {
                let found = match last {
                    Ok(x) => Self::find_search_button(x.as_str()),
                    Err(_) => {
                        proof {
                            reveal_strlit("");
                            assert(""@ =~= Seq::<char>::empty());
                        }
                        Self::find_search_button("")
                    },
                };
                match found {
                    Some((x, y)) => (
                        OpenChatState::SearchTapped,
                        NavAction::Run { args: adb.tap(x, y), pause_ms: 0 },
                    ),
                    None => (
                        OpenChatState::SearchKeyed,
                        NavAction::Run { args: adb.send_key_event(84), pause_ms: 0 },
                    ),
                }
            },
            OpenChatState::SearchTapped => match last {
                Err(e) => (OpenChatState::Finished, NavAction::Finish { result: Err(e), pause_ms: 0 }),
                Ok(_) => (
                    OpenChatState::QueryTyped,
                    NavAction::Run { args: adb.input_text(name_or_group), pause_ms: 800 },
                ),
            },
            OpenChatState::SearchKeyed => (
                OpenChatState::QueryTyped,
                NavAction::Run { args: adb.input_text(name_or_group), pause_ms: 800 },
            ),
            OpenChatState::QueryTyped => match last {
                Err(e) => (OpenChatState::Finished, NavAction::Finish { result: Err(e), pause_ms: 0 }),
                Ok(_) => (
                    OpenChatState::ResultsDumped,
                    NavAction::Run { args: adb.dump_ui_hierarchy().0, pause_ms: 1500 },
                ),
            },
            OpenChatState::ResultsDumped => (
                OpenChatState::ResultsRead,
                NavAction::Run { args: adb.dump_ui_hierarchy().1, pause_ms: 0 },
            ),
            OpenChatState::ResultsRead => match last {
                Err(e) => (OpenChatState::Finished, NavAction::Finish { result: Err(e), pause_ms: 0 }),
                Ok(xml) => match Self::find_first_chat_result(xml.as_str()) {
                    Some((x, y)) => (
                        OpenChatState::ResultTapped,
                        NavAction::Run { args: adb.tap(x, y), pause_ms: 0 },
                    ),
                    None => (
                        OpenChatState::SizeRead,
                        NavAction::Run { args: adb.screen_size_args(), pause_ms: 0 },
                    ),
                },
            },
            OpenChatState::ResultTapped => match last {
                Err(e) => (OpenChatState::Finished, NavAction::Finish { result: Err(e), pause_ms: 0 }),
                Ok(_) => (OpenChatState::Finished, NavAction::Finish { result: Ok(()), pause_ms: 1500 }),
            },
            OpenChatState::SizeRead => {
                let w: i32 = match AdbClient::get_screen_size(last) {
                    Ok((w, _)) => w,
                    Err(_) => 1080,
                };
                let hw = w / 2;
                assert(hw as int == half(w as int));
                (OpenChatState::FallbackTapped, NavAction::Run { args: adb.tap(hw, 350), pause_ms: 0 })
            },
            OpenChatState::FallbackTapped => match last {
                Err(e) => (OpenChatState::Finished, NavAction::Finish { result: Err(e), pause_ms: 0 }),
                Ok(_) => (OpenChatState::Finished, NavAction::Finish { result: Ok(()), pause_ms: 1500 }),
            },
            OpenChatState::Finished => (
                OpenChatState::Finished,
                NavAction::Finish { result: Ok(()), pause_ms: 0 },
            ),
        }
    }
}

} // verus!
