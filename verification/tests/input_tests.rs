use lust_termina::input;
use lust_termina::input::{InputAct, InputEvent, Key};

fn key(key: Key, ctrl: bool, alt: bool) -> InputEvent {
    InputEvent::Key { key, pressed: true, ctrl, alt }
}

fn sent(acts: &[InputAct]) -> Vec<Vec<u8>> {
    acts.iter()
        .map(|a| match a {
            InputAct::Send(b) => b.clone(),
            InputAct::CopyText(_) => panic!("nothing was to be copied"),
        })
        .collect()
}

#[test]
fn keys_send_their_sequences() {
    let table: Vec<(Key, &str)> = vec![
        (Key::Enter, "\r"),
        (Key::Backspace, "\x7f"),
        (Key::Tab, "\t"),
        (Key::Escape, "\x1b"),
        (Key::ArrowUp, "\x1b[A"),
        (Key::ArrowDown, "\x1b[B"),
        (Key::ArrowRight, "\x1b[C"),
        (Key::ArrowLeft, "\x1b[D"),
        (Key::Home, "\x1b[H"),
        (Key::End, "\x1b[F"),
        (Key::Delete, "\x1b[3~"),
        (Key::PageUp, "\x1b[5~"),
        (Key::PageDown, "\x1b[6~"),
        (Key::A, ""),
        (Key::Other, ""),
    ];
    for (k, s) in table {
        assert_eq!(input::encode_key(k, false, false), s.as_bytes().to_vec());
    }
}

#[test]
fn ctrl_makes_control_codes() {
    assert_eq!(input::encode_key(Key::A, true, false), vec![1]);
    assert_eq!(input::encode_key(Key::D, true, false), vec![4]);
    assert_eq!(input::encode_key(Key::Z, true, false), vec![26]);
    assert_eq!(input::encode_key(Key::A, true, true), Vec::<u8>::new());
    for k in [Key::C, Key::V, Key::X] {
        assert_eq!(input::ctrl_letter(k), None);
        assert_eq!(input::encode_key(k, true, false), Vec::<u8>::new());
    }
    assert_eq!(input::ctrl_letter(Key::W), Some(0x77));
}

#[test]
fn ctrl_tab_is_kept_and_ctrl_backspace_deletes_a_word() {
    assert_eq!(input::encode_key(Key::Tab, true, false), Vec::<u8>::new());
    assert_eq!(input::encode_key(Key::Backspace, true, false), vec![0x17]);
    assert_eq!(input::encode_key(Key::Backspace, true, true), vec![0x17]);
    assert_eq!(input::encode_key(Key::Enter, true, false), vec![0x0d]);
}

#[test]
fn a_frame_sends_in_order() {
    let events = vec![
        InputEvent::Text("ls".to_string()),
        InputEvent::ImeCommit("日".to_string()),
        InputEvent::Other,
        key(Key::Enter, false, false),
    ];
    let out = input::handle_input(&events, None);
    assert_eq!(
        sent(&out.acts),
        vec!["ls".as_bytes().to_vec(), "日".as_bytes().to_vec(), vec![0x0d]]
    );
    assert!(out.sent && out.clear_selection);
}

#[test]
fn a_paste_sends_returns_for_feeds() {
    let out = input::handle_input(&vec![InputEvent::Paste("a\nb\r\n".to_string())], None);
    assert_eq!(sent(&out.acts), vec![b"a\rb\r\r".to_vec()]);
}

#[test]
fn copy_takes_the_selection_once_and_then_interrupts() {
    let events = vec![InputEvent::Copy, InputEvent::Copy];
    let out = input::handle_input(&events, Some("picked".to_string()));
    assert_eq!(out.acts.len(), 2);
    assert!(matches!(&out.acts[0], InputAct::CopyText(t) if t == "picked"));
    assert!(matches!(&out.acts[1], InputAct::Send(b) if *b == vec![0x03]));
    assert!(out.sent && out.clear_selection);
}

#[test]
fn copy_alone_sends_nothing() {
    let out = input::handle_input(&vec![InputEvent::Copy], Some("picked".to_string()));
    assert!(!out.sent && out.clear_selection);
}

#[test]
fn copy_without_a_selection_interrupts() {
    let out = input::handle_input(&vec![InputEvent::Copy], None);
    assert_eq!(sent(&out.acts), vec![vec![0x03]]);
    let out = input::handle_input(&vec![InputEvent::Copy], Some(String::new()));
    assert_eq!(sent(&out.acts), vec![vec![0x03]]);
}

#[test]
fn releases_and_silent_keys_send_nothing() {
    let events = vec![
        InputEvent::Key { key: Key::Enter, pressed: false, ctrl: false, alt: false },
        key(Key::Tab, true, false),
        key(Key::B, false, false),
        InputEvent::Other,
    ];
    let out = input::handle_input(&events, Some("kept".to_string()));
    assert!(out.acts.is_empty() && !out.sent && !out.clear_selection);
}

#[test]
fn a_command_line_ends_in_a_return() {
    assert_eq!(input::send_line("cd é"), "cd é\r".as_bytes().to_vec());
    assert_eq!(input::send_line(""), vec![0x0d]);
}

#[test]
fn one_frame_or_two_ask_for_the_same() {
    let first = || vec![InputEvent::Text("a".to_string()), InputEvent::Copy];
    let second = || vec![key(Key::Enter, false, false), InputEvent::Copy];
    let mut all = first();
    all.extend(second());
    let whole = input::handle_input(&all, Some("t".to_string()));
    let one = input::handle_input(&first(), Some("t".to_string()));
    let two = input::handle_input(&second(), None);
    let parts: Vec<&InputAct> = one.acts.iter().chain(two.acts.iter()).collect();
    assert_eq!(format!("{:?}", whole.acts), format!("{:?}", parts));
}
