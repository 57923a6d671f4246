//! Keyboard and clipboard input as bytes for a shell.
use vstd::prelude::*;
use vstd::string::StrSliceExecFns;

use crate::text;

verus! {

/// The keys that mean something to a shell.
#[derive(Clone, Copy, Debug, PartialEq, Eq, Structural)]
pub enum Key {
    A,
    B,
    C,
    D,
    E,
    F,
    G,
    H,
    I,
    J,
    K,
    L,
    M,
    N,
    O,
    P,
    Q,
    R,
    S,
    T,
    U,
    V,
    W,
    X,
    Y,
    Z,
    Enter,
    Backspace,
    Tab,
    Escape,
    ArrowUp,
    ArrowDown,
    ArrowRight,
    ArrowLeft,
    Home,
    End,
    Delete,
    PageUp,
    PageDown,
    Other,
}

/// One event of a frame.
#[derive(Debug)]
pub enum InputEvent {
    /// Typed characters.
    Text(String),
    /// Characters that an input method commits.
    ImeCommit(String),
    /// Pasted text.
    Paste(String),
    /// The copy shortcut.
    Copy,
    Key { key: Key, pressed: bool, ctrl: bool, alt: bool },
    Other,
}

/// What an event asks for.
#[derive(Debug)]
pub enum InputAct {
    /// Bytes for the shell.
    Send(Vec<u8>),
    /// Text for the clipboard.
    CopyText(String),
}

/// An `InputAct` with its bytes or its text.
pub enum ActView {
    Send(Seq<u8>),
    CopyText(Seq<char>),
}

impl View for InputAct {
    type V = ActView;

    open spec fn view(&self) -> ActView {
        match *self {
            InputAct::Send(b) => ActView::Send(b@),
            InputAct::CopyText(t) => ActView::CopyText(t@),
        }
    }
}

/// The letter of a key that Ctrl turns into a control code. The letters C, V
/// and X do not come as keys: they come as copy, paste and cut.
pub open spec fn letter_of(key: Key) -> Option<u8> {
    match key {
        Key::A => Some(0x61),
        Key::B => Some(0x62),
        Key::D => Some(0x64),
        Key::E => Some(0x65),
        Key::F => Some(0x66),
        Key::G => Some(0x67),
        Key::H => Some(0x68),
        Key::I => Some(0x69),
        Key::J => Some(0x6a),
        Key::K => Some(0x6b),
        Key::L => Some(0x6c),
        Key::M => Some(0x6d),
        Key::N => Some(0x6e),
        Key::O => Some(0x6f),
        Key::P => Some(0x70),
        Key::Q => Some(0x71),
        Key::R => Some(0x72),
        Key::S => Some(0x73),
        Key::T => Some(0x74),
        Key::U => Some(0x75),
        Key::W => Some(0x77),
        Key::Y => Some(0x79),
        Key::Z => Some(0x7a),
        _ => None,
    }
}

/// The letter of a key that Ctrl turns into a control code.
pub fn ctrl_letter(key: Key) -> (r: Option<u8>)
    ensures
        r == letter_of(key),
{
    match key {
        Key::A => Some(0x61),
        Key::B => Some(0x62),
        Key::D => Some(0x64),
        Key::E => Some(0x65),
        Key::F => Some(0x66),
        Key::G => Some(0x67),
        Key::H => Some(0x68),
        Key::I => Some(0x69),
        Key::J => Some(0x6a),
        Key::K => Some(0x6b),
        Key::L => Some(0x6c),
        Key::M => Some(0x6d),
        Key::N => Some(0x6e),
        Key::O => Some(0x6f),
        Key::P => Some(0x70),
        Key::Q => Some(0x71),
        Key::R => Some(0x72),
        Key::S => Some(0x73),
        Key::T => Some(0x74),
        Key::U => Some(0x75),
        Key::W => Some(0x77),
        Key::Y => Some(0x79),
        Key::Z => Some(0x7a),
        _ => None,
    }
}

/// What a key sends of itself.
pub open spec fn plain_bytes(key: Key) -> Seq<u8> {
    match key {
        Key::Enter => seq![0x0du8],
        Key::Backspace => seq![0x7fu8],
        Key::Tab => seq![0x09u8],
        Key::Escape => seq![0x1bu8],
        Key::ArrowUp => seq![0x1bu8, 0x5b, 0x41],
        Key::ArrowDown => seq![0x1bu8, 0x5b, 0x42],
        Key::ArrowRight => seq![0x1bu8, 0x5b, 0x43],
        Key::ArrowLeft => seq![0x1bu8, 0x5b, 0x44],
        Key::Home => seq![0x1bu8, 0x5b, 0x48],
        Key::End => seq![0x1bu8, 0x5b, 0x46],
        Key::Delete => seq![0x1bu8, 0x5b, 0x33, 0x7e],
        Key::PageUp => seq![0x1bu8, 0x5b, 0x35, 0x7e],
        Key::PageDown => seq![0x1bu8, 0x5b, 0x36, 0x7e],
        _ => Seq::empty(),
    }
}

/// What a key sends. Ctrl with Tab is for the tabs and sends nothing, with
/// Backspace it deletes a word, and with a letter it is a control code unless
/// Alt is held too.
pub open spec fn key_bytes(key: Key, ctrl: bool, alt: bool) -> Seq<u8> {
    if ctrl && key == Key::Tab {
        Seq::empty()
    } else if ctrl && key == Key::Backspace {
        seq![0x17u8]
    } else if ctrl && !alt && letter_of(key) is Some {
        seq![letter_of(key)->0 & 0x1f]
    } else {
        plain_bytes(key)
    }
}

/// What a key sends of itself.
fn plain_key(key: Key) -> (r: Vec<u8>)
    ensures
        r@ == plain_bytes(key),
{
    match key {
        Key::Enter => vec![0x0d],
        Key::Backspace => vec![0x7f],
        Key::Tab => vec![0x09],
        Key::Escape => vec![0x1b],
        Key::ArrowUp => vec![0x1b, 0x5b, 0x41],
        Key::ArrowDown => vec![0x1b, 0x5b, 0x42],
        Key::ArrowRight => vec![0x1b, 0x5b, 0x43],
        Key::ArrowLeft => vec![0x1b, 0x5b, 0x44],
        Key::Home => vec![0x1b, 0x5b, 0x48],
        Key::End => vec![0x1b, 0x5b, 0x46],
        Key::Delete => vec![0x1b, 0x5b, 0x33, 0x7e],
        Key::PageUp => vec![0x1b, 0x5b, 0x35, 0x7e],
        Key::PageDown => vec![0x1b, 0x5b, 0x36, 0x7e],
        _ => Vec::new(),
    }
}

/// What a key sends.
pub fn encode_key(key: Key, ctrl: bool, alt: bool) -> (r: Vec<u8>)
    ensures
        r@ == key_bytes(key, ctrl, alt),
{
    if ctrl && key == Key::Tab {
        return Vec::new();
    }
    if ctrl && key == Key::Backspace {
        return one_byte(0x17);
    }
    if ctrl && !alt {
        if let Some(ascii) = ctrl_letter(key) {
            return one_byte(ascii & 0x1f);
        }
    }
    plain_key(key)
}

/// What the events so far asked for, and the selected text that is left.
pub struct InputState {
    pub acts: Seq<ActView>,
    pub selection: Option<Seq<char>>,
}

/// One event more. A paste sends its line feeds as carriage returns. A copy
/// takes the selected text, and with nothing selected it interrupts.
pub open spec fn after_event(s: InputState, ev: InputEvent) -> InputState {
    match ev {
        InputEvent::Text(t) => s.send(vstd::utf8::encode_utf8(t@)),
        InputEvent::ImeCommit(t) => s.send(vstd::utf8::encode_utf8(t@)),
        InputEvent::Paste(t) => s.send(
            vstd::utf8::encode_utf8(text::replaced(t@, '\n', '\r')),
        ),
        InputEvent::Copy => match s.selection {
            Some(t) => if t.len() > 0 {
                InputState { acts: s.acts.push(ActView::CopyText(t)), selection: None }
            } else {
                s.send(seq![0x03u8])
            },
            None => s.send(seq![0x03u8]),
        },
        InputEvent::Key { key, pressed, ctrl, alt } => if pressed && key_bytes(
            key,
            ctrl,
            alt,
        ).len() > 0 {
            s.send(key_bytes(key, ctrl, alt))
        } else {
            s
        },
        InputEvent::Other => s,
    }
}

impl InputState {
    /// Bytes more for the shell.
    pub open spec fn send(self, bytes: Seq<u8>) -> InputState {
        InputState { acts: self.acts.push(ActView::Send(bytes)), selection: self.selection }
    }
}

/// The events of a frame, in order.
pub open spec fn after_events(
    events: Seq<InputEvent>,
    selection: Option<Seq<char>>,
) -> InputState
    decreases events.len(),
{
    if events.len() == 0 {
        InputState { acts: Seq::empty(), selection }
    } else {
        after_event(after_events(events.drop_last(), selection), events.last())
    }
}

/// Some act sends bytes.
pub open spec fn any_sent(acts: Seq<ActView>) -> bool {
    exists|i: int| 0 <= i < acts.len() && #[trigger] acts[i] is Send
}

/// Some act copies text.
pub open spec fn any_copied(acts: Seq<ActView>) -> bool {
    exists|i: int| 0 <= i < acts.len() && #[trigger] acts[i] is CopyText
}

/// What a frame's events ask for.
pub struct InputOutcome {
    /// What to do, in order.
    pub acts: Vec<InputAct>,
    /// Something goes to the shell, so the display returns to the bottom.
    pub sent: bool,
    /// The selection is over: it was copied, or the shell was written to.
    pub clear_selection: bool,
}

/// The views of a list of acts.
pub open spec fn act_views(acts: Seq<InputAct>) -> Seq<ActView> {
    acts.map_values(|a: InputAct| a@)
}

/// What a frame's events ask for, when `selection` is the selected text.
pub fn handle_input(events: &Vec<InputEvent>, selection: Option<String>) -> (r: InputOutcome)
    ensures
        act_views(r.acts@) == after_events(events@, text::text_of(selection)).acts,
        r.sent == any_sent(act_views(r.acts@)),
        r.clear_selection == (any_sent(act_views(r.acts@)) || any_copied(act_views(r.acts@))),
{
    let ghost start = text::text_of(selection);
    let mut left: Option<String> = selection;
    let mut acts: Vec<InputAct> = Vec::new();
    let mut sent: bool = false;
    let mut copied: bool = false;
    let mut i: usize = 0;
    assert(act_views(acts@) =~= after_events(events@.take(0), start).acts);
    while i < events.len()
        invariant
            i <= events@.len(),
            act_views(acts@) == after_events(events@.take(i as int), start).acts,
            text::text_of(left) == after_events(events@.take(i as int), start).selection,
            sent == any_sent(act_views(acts@)),
            copied == any_copied(act_views(acts@)),
        decreases events@.len() - i,
    {
        let ghost before = act_views(acts@);
        let ghost acts_before = acts@;
        proof {
            assert(events@.take(i + 1).drop_last() =~= events@.take(i as int));
            assert(events@.take(i + 1).last() == events@[i as int]);
        }
        match &events[i] {
            InputEvent::Text(t) => {
                acts.push(InputAct::Send(t.as_str().as_bytes_vec()));
                sent = true;
            },
            InputEvent::ImeCommit(t) => {
                acts.push(InputAct::Send(t.as_str().as_bytes_vec()));
                sent = true;
            },
            InputEvent::Paste(t) => {
                let p: String = text::replace(t.as_str(), '\n', '\r');
                acts.push(InputAct::Send(p.as_str().as_bytes_vec()));
                sent = true;
            },
            InputEvent::Copy => {
                match left {
                    Some(t) => {
                        if t.as_str().is_empty() {
                            left = Some(t);
                            acts.push(InputAct::Send(one_byte(0x03)));
                            sent = true;
                        } else {
                            left = None;
                            acts.push(InputAct::CopyText(t));
                            copied = true;
                        }
                    },
                    None => {
                        left = None;
                        acts.push(InputAct::Send(one_byte(0x03)));
                        sent = true;
                    },
                }
            },
            InputEvent::Key { key, pressed, ctrl, alt } => {
                if *pressed {
                    let bytes: Vec<u8> = encode_key(*key, *ctrl, *alt);
                    if bytes.len() > 0 {
                        acts.push(InputAct::Send(bytes));
                        sent = true;
                    }
                }
            },
            InputEvent::Other => {},
        }
        proof {
            if acts@.len() > acts_before.len() {
                let a = acts@.last();
                assert(acts@ =~= acts_before.push(a));
                assert(act_views(acts@) =~= before.push(a@));
                lemma_push_kinds(before, a@);
            }
        }
        i = i + 1;
    }
    assert(events@.take(events@.len() as int) =~= events@);
    InputOutcome { acts, sent, clear_selection: sent || copied }
}

/// A single byte.
fn one_byte(b: u8) -> (r: Vec<u8>)
    ensures
        r@ == seq![b],
{
    vec![b]
}

proof fn lemma_push_kinds(acts: Seq<ActView>, a: ActView)
    ensures
        any_sent(acts.push(a)) == (any_sent(acts) || a is Send),
        any_copied(acts.push(a)) == (any_copied(acts) || a is CopyText),
{
    let all = acts.push(a);
    assert(all[acts.len() as int] == a);
    if any_sent(acts) {
        let i = choose|i: int| 0 <= i < acts.len() && #[trigger] acts[i] is Send;
        assert(all[i] is Send);
    }
    if any_copied(acts) {
        let i = choose|i: int| 0 <= i < acts.len() && #[trigger] acts[i] is CopyText;
        assert(all[i] is CopyText);
    }
    if any_sent(all) {
        let i = choose|i: int| 0 <= i < all.len() && #[trigger] all[i] is Send;
        assert(i < acts.len() ==> acts[i] is Send);
    }
    if any_copied(all) {
        let i = choose|i: int| 0 <= i < all.len() && #[trigger] all[i] is CopyText;
        assert(i < acts.len() ==> acts[i] is CopyText);
    }
}

/// The bytes of a command line, which a carriage return ends.
pub fn send_line(line: &str) -> (r: Vec<u8>)
    ensures
        r@ == vstd::utf8::encode_utf8(line@).push(0x0d),
{
    let mut bytes: Vec<u8> = line.as_bytes_vec();
    bytes.push(0x0d);
    bytes
}

// ---- laws ----

/// Ctrl with a letter is the control code with the letter's place in the
/// alphabet as its number.
pub proof fn law_control_codes(key: Key)
    ensures
        letter_of(key) matches Some(l) ==> 0x61 <= l <= 0x7a && key_bytes(key, true, false)
            == seq![(l - 0x60) as u8],
{
    if let Some(l) = letter_of(key) {
        assert(0x61 <= l <= 0x7a ==> l & 0x1f == l - 0x60) by (bit_vector);
    }
}

/// A letter without Ctrl sends nothing as a key: it comes as text.
pub proof fn law_letters_come_as_text(key: Key, alt: bool)
    requires
        letter_of(key) is Some,
    ensures
        key_bytes(key, false, alt) == Seq::<u8>::empty(),
{
}

/// A paste holds no line feed when it reaches the shell, and is as long as
/// the text was.
pub proof fn law_paste_has_no_line_feed(t: Seq<char>)
    ensures
        !text::replaced(t, '\n', '\r').contains('\n'),
        text::replaced(t, '\n', '\r').len() == t.len(),
{
    let p = text::replaced(t, '\n', '\r');
    assert forall|i: int| 0 <= i < p.len() implies p[i] != '\n' by {}
}

/// An event asks for one thing at most, and what was asked for stays.
pub proof fn law_one_act_per_event(s: InputState, ev: InputEvent)
    ensures
        s.acts.is_prefix_of(after_event(s, ev).acts),
        after_event(s, ev).acts.len() <= s.acts.len() + 1,
{
}

/// The selection can be copied once: the next copy of the frame interrupts
/// the shell.
pub proof fn law_copy_once(s: InputState)
    ensures
        after_event(after_event(s, InputEvent::Copy), InputEvent::Copy).acts.last()
            == ActView::Send(seq![0x03u8]),
        s.selection matches Some(t) ==> t.len() > 0 ==> after_event(s, InputEvent::Copy).acts.last()
            == ActView::CopyText(t),
{
}

/// A key that is let go sends nothing.
pub proof fn law_release_is_silent(s: InputState, key: Key, ctrl: bool, alt: bool)
    ensures
        after_event(s, InputEvent::Key { key, pressed: false, ctrl, alt }) == s,
{
}

/// What later events ask for does not depend on how the events are cut into
/// frames, but for the selected text that is left.
pub proof fn law_events_in_order(
    a: Seq<InputEvent>,
    b: Seq<InputEvent>,
    selection: Option<Seq<char>>,
)
    ensures
        ({
            let first = after_events(a, selection);
            let second = after_events(b, first.selection);
            after_events(a + b, selection) == (InputState {
                acts: first.acts + second.acts,
                selection: second.selection,
            })
        }),
    decreases b.len(),
{
    let first = after_events(a, selection);
    if b.len() == 0 {
        assert(a + b =~= a);
        assert(first.acts + Seq::<ActView>::empty() =~= first.acts);
    } else {
        let c = b.drop_last();
        let second = after_events(c, first.selection);
        law_events_in_order(a, c, selection);
        assert((a + b).drop_last() =~= a + c);
        assert((a + b).last() == b.last());
        lemma_event_appends(first.acts, second, b.last());
    }
}

proof fn lemma_event_appends(before: Seq<ActView>, s: InputState, ev: InputEvent)
    ensures
        after_event(InputState { acts: before + s.acts, selection: s.selection }, ev) == (
        InputState {
            acts: before + after_event(s, ev).acts,
            selection: after_event(s, ev).selection,
        }),
{
    let t = after_event(s, ev).acts;
    if t.len() > s.acts.len() {
        assert((before + s.acts).push(t.last()) =~= before + t);
    }
}

/// Ctrl with a letter key sends the number of that letter in the alphabet. The
/// keys C, V and X send nothing: they come as copy, paste and cut.
pub proof fn law_ctrl_sends_the_place(key: Key)
    ensures
        match key {
            Key::A => key_bytes(key, true, false) == seq![1u8],
            Key::B => key_bytes(key, true, false) == seq![2u8],
            Key::D => key_bytes(key, true, false) == seq![4u8],
            Key::E => key_bytes(key, true, false) == seq![5u8],
            Key::F => key_bytes(key, true, false) == seq![6u8],
            Key::G => key_bytes(key, true, false) == seq![7u8],
            Key::H => key_bytes(key, true, false) == seq![8u8],
            Key::I => key_bytes(key, true, false) == seq![9u8],
            Key::J => key_bytes(key, true, false) == seq![10u8],
            Key::K => key_bytes(key, true, false) == seq![11u8],
            Key::L => key_bytes(key, true, false) == seq![12u8],
            Key::M => key_bytes(key, true, false) == seq![13u8],
            Key::N => key_bytes(key, true, false) == seq![14u8],
            Key::O => key_bytes(key, true, false) == seq![15u8],
            Key::P => key_bytes(key, true, false) == seq![16u8],
            Key::Q => key_bytes(key, true, false) == seq![17u8],
            Key::R => key_bytes(key, true, false) == seq![18u8],
            Key::S => key_bytes(key, true, false) == seq![19u8],
            Key::T => key_bytes(key, true, false) == seq![20u8],
            Key::U => key_bytes(key, true, false) == seq![21u8],
            Key::W => key_bytes(key, true, false) == seq![23u8],
            Key::Y => key_bytes(key, true, false) == seq![25u8],
            Key::Z => key_bytes(key, true, false) == seq![26u8],
            Key::C | Key::V | Key::X => key_bytes(key, true, false) == Seq::<u8>::empty(),
            _ => true,
        },
{
    assert(0x61u8 & 0x1f == 1 && 0x62u8 & 0x1f == 2 && 0x64u8 & 0x1f == 4 && 0x65u8 & 0x1f == 5
        && 0x66u8 & 0x1f == 6 && 0x67u8 & 0x1f == 7 && 0x68u8 & 0x1f == 8 && 0x69u8 & 0x1f == 9
        && 0x6au8 & 0x1f == 10 && 0x6bu8 & 0x1f == 11 && 0x6cu8 & 0x1f == 12 && 0x6du8 & 0x1f == 13
        && 0x6eu8 & 0x1f == 14 && 0x6fu8 & 0x1f == 15 && 0x70u8 & 0x1f == 16 && 0x71u8 & 0x1f == 17
        && 0x72u8 & 0x1f == 18 && 0x73u8 & 0x1f == 19 && 0x74u8 & 0x1f == 20 && 0x75u8 & 0x1f == 21
        && 0x77u8 & 0x1f == 23 && 0x79u8 & 0x1f == 25 && 0x7au8 & 0x1f == 26) by (bit_vector);
}

/// What a terminal's keys send: Enter, Tab and Escape their codes, Backspace
/// the code for deleting, and the others an escape sequence. Every other key
/// sends nothing of itself.
pub proof fn law_keys_send(key: Key, alt: bool)
    ensures
        ({
            let sent = key_bytes(key, false, alt);
            match key {
                Key::Enter => sent == seq![13u8],
                Key::Backspace => sent == seq![127u8],
                Key::Tab => sent == seq![9u8],
                Key::Escape => sent == seq![27u8],
                Key::ArrowUp => sent == seq![27u8, '[' as u8, 'A' as u8],
                Key::ArrowDown => sent == seq![27u8, '[' as u8, 'B' as u8],
                Key::ArrowRight => sent == seq![27u8, '[' as u8, 'C' as u8],
                Key::ArrowLeft => sent == seq![27u8, '[' as u8, 'D' as u8],
                Key::Home => sent == seq![27u8, '[' as u8, 'H' as u8],
                Key::End => sent == seq![27u8, '[' as u8, 'F' as u8],
                Key::Delete => sent == seq![27u8, '[' as u8, '3' as u8, '~' as u8],
                Key::PageUp => sent == seq![27u8, '[' as u8, '5' as u8, '~' as u8],
                Key::PageDown => sent == seq![27u8, '[' as u8, '6' as u8, '~' as u8],
                _ => sent == Seq::<u8>::empty(),
            }
        }),
{
}

/// Ctrl keeps Tab from the shell, makes Backspace delete a word, changes a
/// letter unless Alt is held too, and changes no other key.
pub proof fn law_ctrl_changes(key: Key, alt: bool)
    ensures
        key == Key::Tab ==> key_bytes(key, true, alt) == Seq::<u8>::empty(),
        key == Key::Backspace ==> key_bytes(key, true, alt) == seq![23u8],
        key != Key::Tab && key != Key::Backspace ==> key_bytes(key, true, true) == key_bytes(
            key,
            false,
            alt,
        ),
        (match key {
            Key::Enter | Key::Escape | Key::ArrowUp | Key::ArrowDown | Key::ArrowRight
            | Key::ArrowLeft | Key::Home | Key::End | Key::Delete | Key::PageUp | Key::PageDown
            | Key::Other => true,
            _ => false,
        }) ==> key_bytes(key, true, alt) == key_bytes(key, false, alt),
{
}

/// Text goes to the shell as it is in UTF-8, typed or committed; a paste goes
/// as the same text typed, with returns for line feeds; a pressed key goes as
/// its bytes, if it has any. None of them touches the selection.
pub proof fn law_events_send(s: InputState, t: String, u: String, key: Key, ctrl: bool, alt: bool)
    requires
        u@.len() == t@.len(),
        forall|i: int|
            0 <= i < t@.len() ==> #[trigger] u@[i] == (if t@[i] == '\n' {
                '\r'
            } else {
                t@[i]
            }),
    ensures
        after_event(s, InputEvent::Text(t)).acts == s.acts + seq![
            ActView::Send(vstd::utf8::encode_utf8(t@)),
        ],
        after_event(s, InputEvent::Text(t)).selection == s.selection,
        after_event(s, InputEvent::ImeCommit(t)) == after_event(s, InputEvent::Text(t)),
        after_event(s, InputEvent::Paste(t)) == after_event(s, InputEvent::Text(u)),
        after_event(s, InputEvent::Key { key, pressed: true, ctrl, alt }).acts == s.acts + (
        if key_bytes(key, ctrl, alt).len() == 0 {
            Seq::<ActView>::empty()
        } else {
            seq![ActView::Send(key_bytes(key, ctrl, alt))]
        }),
        after_event(s, InputEvent::Key { key, pressed: true, ctrl, alt }).selection == s.selection,
        after_event(s, InputEvent::Other) == s,
{
    assert(text::replaced(t@, '\n', '\r') =~= u@);
    assert(after_event(s, InputEvent::Text(t)).acts =~= s.acts + seq![
        ActView::Send(vstd::utf8::encode_utf8(t@)),
    ]);
    let k = after_event(s, InputEvent::Key { key, pressed: true, ctrl, alt });
    if key_bytes(key, ctrl, alt).len() == 0 {
        assert(k.acts =~= s.acts + Seq::<ActView>::empty());
    } else {
        assert(k.acts =~= s.acts + seq![ActView::Send(key_bytes(key, ctrl, alt))]);
    }
}

/// A copy takes the selected text, which is then selected no more; with
/// nothing selected it sends the interrupt and nothing else.
pub proof fn law_copy_or_interrupt(s: InputState)
    ensures
        ({
            let after = after_event(s, InputEvent::Copy);
            let chosen = match s.selection {
                Some(t) => t,
                None => Seq::empty(),
            };
            &&& chosen.len() > 0 ==> after.acts == s.acts + seq![ActView::CopyText(chosen)]
            &&& chosen.len() > 0 ==> after.selection is None
            &&& chosen.len() == 0 ==> after.acts == s.acts + seq![ActView::Send(seq![3u8])]
            &&& chosen.len() == 0 ==> after.selection == s.selection
        }),
{
    let after = after_event(s, InputEvent::Copy);
    assert(after.acts =~= s.acts + seq![after.acts.last()]);
}

/// A frame without events asks for nothing, and one with a single event for
/// what that event asks for.
pub proof fn law_single_event(ev: InputEvent, selection: Option<Seq<char>>)
    ensures
        after_events(Seq::empty(), selection) == (InputState { acts: Seq::empty(), selection }),
        after_events(seq![ev], selection) == after_event(
            InputState { acts: Seq::empty(), selection },
            ev,
        ),
{
    assert(seq![ev].drop_last() =~= Seq::<InputEvent>::empty());
}

/// Something was sent or copied where one of the acts did it.
pub proof fn law_kinds_of_acts(a: Seq<ActView>, bytes: Seq<u8>, t: Seq<char>, b: Seq<ActView>)
    ensures
        any_sent(a + seq![ActView::Send(bytes)] + b),
        any_copied(a + seq![ActView::CopyText(t)] + b),
        any_sent(a.push(ActView::CopyText(t))) == any_sent(a),
        any_copied(a.push(ActView::Send(bytes))) == any_copied(a),
        !any_sent(Seq::empty()),
        !any_copied(Seq::empty()),
{
    let x = a + seq![ActView::Send(bytes)] + b;
    assert(x[a.len() as int] == ActView::Send(bytes));
    let y = a + seq![ActView::CopyText(t)] + b;
    assert(y[a.len() as int] == ActView::CopyText(t));
    lemma_push_kinds(a, ActView::CopyText(t));
    lemma_push_kinds(a, ActView::Send(bytes));
}

/// Acts are viewed one by one.
pub proof fn law_act_views(acts: Seq<InputAct>, i: int)
    requires
        0 <= i < acts.len(),
    ensures
        act_views(acts).len() == acts.len(),
        acts[i] matches InputAct::Send(b) ==> act_views(acts)[i] == ActView::Send(b@),
        acts[i] matches InputAct::CopyText(t) ==> act_views(acts)[i] == ActView::CopyText(t@),
{
}

/// The selection is over once anything was sent or copied, and the shell was
/// written to where anything was sent.
pub proof fn law_outcome(events: &Vec<InputEvent>, selection: Option<String>, r: InputOutcome)
    requires
        call_ensures(handle_input, (events, selection), r),
    ensures
        act_views(r.acts@) == after_events(events@, text::text_of(selection)).acts,
        r.sent ==> r.clear_selection,
        r.sent <==> exists|i: int| 0 <= i < r.acts@.len() && #[trigger] r.acts@[i] is Send,
        r.clear_selection <==> r.acts@.len() > 0,
{
    let acts = act_views(r.acts@);
    if any_sent(acts) {
        let i = choose|i: int| 0 <= i < acts.len() && #[trigger] acts[i] is Send;
        assert(r.acts@[i] is Send);
    }
    if exists|i: int| 0 <= i < r.acts@.len() && #[trigger] r.acts@[i] is Send {
        let i = choose|i: int| 0 <= i < r.acts@.len() && #[trigger] r.acts@[i] is Send;
        assert(acts[i] is Send);
    }
    if r.acts@.len() > 0 {
        assert(acts[0] is Send || acts[0] is CopyText);
    }
}

} // verus!
