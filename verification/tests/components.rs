//! Component-level behaviour: the locator's resolution order, the
//! emitter's exact byte-level rendering, and the hand-off check on
//! hand-made instruction streams.

use acc::compiler::check_stream;
use acc::emitter::emit;
use acc::instr::Instr;
use acc::locator::{Locator, SourceUnit};

fn unit(name: &str, text: &str) -> SourceUnit {
    SourceUnit {
        name: name.as_bytes().to_vec(),
        path: format!("{name}.ash").into_bytes(),
        text: text.as_bytes().to_vec(),
    }
}

#[test]
fn resolve_returns_the_first_registered_definition() {
    let mut l = Locator::new();
    l.register_root(vec![unit("a", "first"), unit("b", "other")]);
    l.register_root(vec![unit("a", "second")]);
    let u = l.resolve(&b"a".to_vec()).unwrap();
    assert_eq!(u.text, b"first".to_vec());
}

#[test]
fn resolve_unknown_name_is_none() {
    let mut l = Locator::new();
    l.register_root(vec![unit("a", "first")]);
    assert!(l.resolve(&b"zzz".to_vec()).is_none());
}

#[test]
fn every_mnemonic_renders_exactly() {
    let stream = vec![
        Instr::FnLabel(0),
        Instr::Push(12),
        Instr::Add,
        Instr::Mul,
        Instr::Dup(3),
        Instr::Swap(1),
        Instr::Pop(2),
        Instr::Call(17),
        Instr::Skiz,
        Instr::ReadIo(1),
        Instr::Divine(4),
        Instr::WriteIo(5),
        Instr::Halt,
        Instr::BrLabel(17),
        Instr::Return,
    ];
    let text = String::from_utf8(emit(&stream)).unwrap();
    assert_eq!(
        text,
        "_L0:\npush 12\nadd\nmul\ndup 3\nswap 1\npop 2\ncall _L17\nskiz\nread_io 1\ndivine 4\nwrite_io 5\nhalt\n_L17:\nreturn\n"
    );
}

#[test]
fn multi_digit_labels_render_in_decimal() {
    let text = String::from_utf8(emit(&vec![Instr::FnLabel(1205)])).unwrap();
    assert_eq!(text, "_L1205:\n");
}

#[test]
fn hand_off_check_accepts_a_resolved_stream() {
    let stream = vec![Instr::FnLabel(0), Instr::Call(1), Instr::Halt, Instr::FnLabel(1), Instr::Return];
    assert!(check_stream(&stream));
}

#[test]
fn hand_off_check_rejects_duplicate_labels() {
    let stream = vec![Instr::FnLabel(0), Instr::BrLabel(0), Instr::Halt];
    assert!(!check_stream(&stream));
}

#[test]
fn hand_off_check_rejects_an_undefined_call_target() {
    let stream = vec![Instr::FnLabel(0), Instr::Call(9), Instr::Halt];
    assert!(!check_stream(&stream));
}

#[test]
fn hand_off_check_rejects_an_out_of_range_argument() {
    let stream = vec![Instr::FnLabel(0), Instr::Dup(16), Instr::Halt];
    assert!(!check_stream(&stream));
}
