# whatsapp_usb_bridge

Reads and drives WhatsApp on an Android phone connected over USB (ADB), with a
console mode, an Egui window that mirrors the screen, and an LM Studio
assistant that suggests replies and summarises chats.

## Layout

- `src/` is the verified library (Verus). It builds the command lines sent
  to `adb` (all but three screen taps and swipes whose positions are fractions
  of the screen size computed in floating point in `app/`), reads what comes
  back (device lists, `wm size`, UI dumps, notification dumps, `content query`
  output, screen captures decoded into frames), normalises and searches
  contacts, builds WhatsApp links and the assistant's prompts, and decides the
  steps of opening a chat and of each menu. Its contracts are stated over
  sequences of characters; the laws it proves are public `law_*` proof
  functions.
  - `text.rs`: string primitives and their specifications.
  - `adb.rs`: the ADB client and the commands it builds.
  - `contacts.rs`: the address book.
  - `matching.rs`: regular-expression matching, done by the `regex` crate.
  - `whatsapp/`: notifications, chat list, chat screen, sending, navigation.
  - `llm.rs`, `menu.rs`, `ui.rs`, `screen.rs`: assistant requests, menu
    choices, picker and side-panel state, touch gestures.
- `app/` is the program around it: running `adb`, HTTP to LM Studio, the
  console and the Egui window.
- `tests/` runs the library on concrete inputs.
