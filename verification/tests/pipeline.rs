//! End-to-end behaviour of the compilation pipeline: source units in,
//! instruction streams and assembly text out, with every failure mode
//! of the error taxonomy exercised on a concrete program.

use acc::compiler::Compiler;
use acc::error::Error;
use acc::instr::Instr;
use acc::locator::SourceUnit;

fn unit(name: &str, text: &str) -> SourceUnit {
    SourceUnit {
        name: name.as_bytes().to_vec(),
        path: format!("{name}.ash").into_bytes(),
        text: text.as_bytes().to_vec(),
    }
}

fn compiler_with(units: Vec<SourceUnit>) -> Compiler {
    let mut c = Compiler::new();
    c.register_root(units);
    c
}

fn fn_labels(stream: &[Instr]) -> Vec<u64> {
    stream
        .iter()
        .filter_map(|i| match i {
            Instr::FnLabel(l) => Some(*l),
            _ => None,
        })
        .collect()
}

fn call_targets(stream: &[Instr]) -> Vec<u64> {
    stream
        .iter()
        .filter_map(|i| match i {
            Instr::Call(l) => Some(*l),
            _ => None,
        })
        .collect()
}

#[test]
fn leaf_function_has_one_entry_label_and_no_calls() {
    let c = compiler_with(vec![unit("main", "fn main\nlet x = 4\nreturn x\n")]);
    let stream = c.compile(&b"main".to_vec()).unwrap();
    assert_eq!(fn_labels(&stream).len(), 1);
    assert_eq!(call_targets(&stream).len(), 0);
}

#[test]
fn three_call_sites_one_body_same_label() {
    let c = compiler_with(vec![
        unit(
            "main",
            "fn main\nlet a = call double 3\nlet b = call double a\nlet d = call double b\nreturn d\n",
        ),
        unit("double", "fn double x\nlet y = x + x\nreturn y\n"),
    ]);
    let stream = c.compile(&b"main".to_vec()).unwrap();
    let labels = fn_labels(&stream);
    assert_eq!(labels.len(), 2, "each function body emitted exactly once");
    let targets = call_targets(&stream);
    assert_eq!(targets.len(), 3, "one call instruction per call site");
    assert!(targets.iter().all(|t| *t == targets[0]), "all sites share the callee's label");
    assert!(labels.contains(&targets[0]));
}

#[test]
fn mutual_recursion_terminates_with_finite_stream() {
    let c = compiler_with(vec![
        unit("even", "fn even n\nlet r = 1\nif n\nlet m = n - 1\nset r = call odd m\nend\nreturn r\n"),
        unit("odd", "fn odd n\nlet r = 0\nif n\nlet m = n - 1\nset r = call even m\nend\nreturn r\n"),
    ]);
    let stream = c.compile(&b"even".to_vec()).unwrap();
    assert_eq!(fn_labels(&stream).len(), 2, "each function of the cycle compiled once");
    assert!(stream.len() < 200, "no runaway recompilation");
}

#[test]
fn direct_recursion_compiles_once() {
    let c = compiler_with(vec![unit(
        "fact",
        "fn fact n\nlet r = 1\nif n\nlet m = n - 1\nlet s = call fact m\nset r = n * s\nend\nreturn r\n",
    )]);
    let stream = c.compile(&b"fact".to_vec()).unwrap();
    assert_eq!(fn_labels(&stream).len(), 1);
    // one call instruction per jumping statement: the recursive call
    // site and the branch entry, nothing duplicated or dropped
    assert_eq!(call_targets(&stream).len(), 2);
}

#[test]
fn unknown_entry_fails_with_unresolved_module() {
    let c = compiler_with(vec![unit("main", "fn main\nreturn 0\n")]);
    let err = c.compile(&b"missing_fn".to_vec()).unwrap_err();
    assert_eq!(err, Error::UnresolvedModule { name: b"missing_fn".to_vec() });
}

#[test]
fn unknown_callee_fails_with_unresolved_module() {
    let c = compiler_with(vec![unit("main", "fn main\nlet x = call absent 1\nreturn x\n")]);
    let err = c.compile(&b"main".to_vec()).unwrap_err();
    assert_eq!(err, Error::UnresolvedModule { name: b"absent".to_vec() });
}

#[test]
fn arity_mismatch_reports_both_counts() {
    let c = compiler_with(vec![
        unit("main", "fn main\nlet x = call add2 1\nreturn x\n"),
        unit("add2", "fn add2 a b\nlet s = a + b\nreturn s\n"),
    ]);
    let err = c.compile(&b"main".to_vec()).unwrap_err();
    assert_eq!(err, Error::ArityMismatch { expected: 2, got: 1 });
}

#[test]
fn unknown_local_fails_with_unresolved_symbol() {
    let c = compiler_with(vec![unit("main", "fn main\nlet x = y + 1\nreturn x\n")]);
    let err = c.compile(&b"main".to_vec()).unwrap_err();
    assert_eq!(
        err,
        Error::UnresolvedSymbol { function: b"main".to_vec(), symbol: b"y".to_vec() }
    );
}

#[test]
fn malformed_source_is_reported_with_its_name() {
    let c = compiler_with(vec![unit("main", "fn main\nthis is no statement\nreturn 0\n")]);
    let err = c.compile(&b"main".to_vec()).unwrap_err();
    assert_eq!(err, Error::MalformedSource { name: b"main".to_vec() });
}

#[test]
fn frame_past_the_machine_window_is_rejected() {
    let mut text = String::from("fn main\n");
    for i in 0..17 {
        text.push_str(&format!("let x{i} = {i}\n"));
    }
    text.push_str("out x0\nreturn 0\n");
    let c = compiler_with(vec![unit("main", &text)]);
    let err = c.compile(&b"main".to_vec()).unwrap_err();
    assert_eq!(err, Error::StackDepthExceeded { function: b"main".to_vec() });
}

#[test]
fn first_registered_root_wins_on_duplicate_names() {
    let mut c = Compiler::new();
    c.register_root(vec![unit("dup", "fn dup\nreturn 1\n")]);
    c.register_root(vec![unit("dup", "fn dup\nreturn 2\n")]);
    let stream = c.compile(&b"dup".to_vec()).unwrap();
    // the first root's body returns the literal 1
    assert!(stream.contains(&Instr::Push(1)));
    assert!(!stream.contains(&Instr::Push(2)));
}

#[test]
fn registration_order_decides_even_when_swapped() {
    let mut c = Compiler::new();
    c.register_root(vec![unit("dup", "fn dup\nreturn 2\n")]);
    c.register_root(vec![unit("dup", "fn dup\nreturn 1\n")]);
    let stream = c.compile(&b"dup".to_vec()).unwrap();
    assert!(stream.contains(&Instr::Push(2)));
    assert!(!stream.contains(&Instr::Push(1)));
}

#[test]
fn entry_stream_starts_with_its_own_label_and_halts() {
    let c = compiler_with(vec![unit("main", "fn main\nreturn 7\n")]);
    let stream = c.compile(&b"main".to_vec()).unwrap();
    assert!(matches!(stream[0], Instr::FnLabel(_)));
    assert!(stream.contains(&Instr::Halt));
}

#[test]
fn subtraction_is_lowered_through_the_field() {
    let c = compiler_with(vec![unit("main", "fn main\nlet x = 9 - 4\nreturn x\n")]);
    let stream = c.compile(&b"main".to_vec()).unwrap();
    // a - b becomes a, b, order-1, mul, add
    assert!(stream.contains(&Instr::Push(18446744069414584320)));
}
