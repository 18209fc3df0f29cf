use ijevim::register::{base64_encode, clipboard_sequence, Register};
use ijevim::types::{KillRing, Marks, Position, KILL_RING_MAX};

#[test]
fn rfc4648_test_vectors() {
    assert_eq!(base64_encode(b""), "");
    assert_eq!(base64_encode(b"f"), "Zg==");
    assert_eq!(base64_encode(b"fo"), "Zm8=");
    assert_eq!(base64_encode(b"foo"), "Zm9v");
    assert_eq!(base64_encode(b"foob"), "Zm9vYg==");
    assert_eq!(base64_encode(b"fooba"), "Zm9vYmE=");
    assert_eq!(base64_encode(b"foobar"), "Zm9vYmFy");
}

#[test]
fn register_does_not_panic_for_special_chars() {
    let mut r = Register::new();
    r.set('"', "hello\nworld");
    r.set('+', "tab\there");
    r.set('a', "internal");
    assert_eq!(r.get('a'), "internal");
}

#[test]
fn empty_clipboard_set_is_noop() {
    let mut r = Register::new();
    r.set('"', "");
    r.set('+', "");
    assert_eq!(r.get('"'), "");
}

#[test]
fn register_read_back_under_either_case() {
    let mut r = Register::new();
    r.set('A', "upper");
    assert_eq!(r.get('a'), "upper");
    assert_eq!(r.get('A'), "upper");
    r.set('b', "other");
    assert_eq!(r.get('a'), "upper");
    assert_eq!(r.get('b'), "other");
}

#[test]
fn register_unknown_name_reads_empty() {
    let r = Register::new();
    assert_eq!(r.get('1'), "");
    assert_eq!(r.get_default(), "");
}

#[test]
fn register_queues_clipboard_only_for_shared_registers() {
    let mut r = Register::new();
    r.set('a', "not shared");
    assert!(r.take_clipboard_writes().is_empty());
    r.set('"', "foo");
    r.set('+', "");
    r.set('+', "fo");
    let w = r.take_clipboard_writes();
    assert_eq!(w, vec!["\x1b]52;c;Zm9v\x07".to_string(), "\x1b]52;c;Zm8=\x07".to_string()]);
    assert!(r.take_clipboard_writes().is_empty());
    assert_eq!(r.get_default(), "foo");
}

#[test]
fn clipboard_sequence_of_empty_text_is_none() {
    assert_eq!(clipboard_sequence(""), None);
    assert_eq!(clipboard_sequence("foobar"), Some("\x1b]52;c;Zm9vYmFy\x07".to_string()));
}

#[test]
fn kill_then_yank_gives_newest() {
    let mut k = KillRing::new();
    assert_eq!(k.yank(), None);
    k.push("one");
    k.push("");
    k.push("two");
    assert_eq!(k.yank(), Some("two"));
    assert_eq!(k.len(), 2);
    assert_eq!(k.yank_pop(), Some("one"));
    assert_eq!(k.current_yank(), Some("one"));
    assert_eq!(k.yank_pop(), Some("two"));
    k.reset_index();
    assert_eq!(k.current_yank(), Some("two"));
}

#[test]
fn kill_ring_drops_oldest_when_full() {
    let mut k = KillRing::new();
    for i in 0..(KILL_RING_MAX + 5) {
        k.push(&format!("k{}", i));
    }
    assert_eq!(k.len(), KILL_RING_MAX);
    assert_eq!(k.yank(), Some(format!("k{}", KILL_RING_MAX + 4).as_str()));
}

#[test]
fn mark_set_then_get() {
    let mut m = Marks::new();
    assert_eq!(m.get('a'), None);
    m.set('a', Position { line: 3, col: 4 });
    m.set('b', Position { line: 1, col: 0 });
    m.set('a', Position { line: 5, col: 6 });
    assert_eq!(m.get('a'), Some(Position { line: 5, col: 6 }));
    assert_eq!(m.get('b'), Some(Position { line: 1, col: 0 }));
}
