//! The pipeline against the real external collaborators: emitted text
//! through the external assembler/linker, and a full proving run whose
//! claim must reference the public input it was given.

use acc::compiler::Compiler;
use acc::driver::{assemble, run};
use acc::emitter::emit;
use acc::locator::SourceUnit;

fn unit(name: &str, text: &str) -> SourceUnit {
    SourceUnit {
        name: name.as_bytes().to_vec(),
        path: format!("{name}.ash").into_bytes(),
        text: text.as_bytes().to_vec(),
    }
}

fn compiler_with(units: Vec<SourceUnit>) -> Compiler {
    let mut c = Compiler::new();
    c.register_root(units);
    c
}

#[test]
fn emitted_text_is_exact() {
    let c = compiler_with(vec![unit("main", "fn main\nreturn 3\n")]);
    let stream = c.compile(&b"main".to_vec()).unwrap();
    let text = String::from_utf8(emit(&stream)).unwrap();
    assert_eq!(text, "_L0:\npush 3\nhalt\n");
}

#[test]
fn compiled_streams_pass_the_external_assembler() {
    let c = compiler_with(vec![
        unit(
            "main",
            "fn main\npub a\npub b\nlet s = call combine a b\nout s\nreturn s\n",
        ),
        unit(
            "combine",
            "fn combine x y\nlet s = x + y\nif s\nlet t = s * 2\nset s = t - s\nend\nreturn s\n",
        ),
    ]);
    let stream = c.compile(&b"main".to_vec()).unwrap();
    let text = emit(&stream);
    assert!(assemble(&text).is_ok(), "round trip must not raise a syntax error");
}

#[test]
fn recursive_stream_passes_the_external_assembler() {
    let c = compiler_with(vec![unit(
        "fact",
        "fn fact n\nlet r = 1\nif n\nlet m = n - 1\nlet s = call fact m\nset r = n * s\nend\nreturn r\n",
    )]);
    let stream = c.compile(&b"fact".to_vec()).unwrap();
    assert!(assemble(&emit(&stream)).is_ok());
}

#[test]
fn proving_a_sum_echoes_the_public_input_in_the_claim() {
    let c = compiler_with(vec![unit(
        "main",
        "fn main\npub a\npub b\nlet s = a + b\nout s\nreturn s\n",
    )]);
    let stream = c.compile(&b"main".to_vec()).unwrap();
    let program = assemble(&emit(&stream)).unwrap();
    let artifacts = run(&program, &vec![2, 3], &vec![]).unwrap();
    assert_eq!(artifacts.claim_input, vec![2, 3]);
    assert_eq!(artifacts.claim_output, vec![5]);
}

#[test]
fn subtraction_computes_in_the_field() {
    let c = compiler_with(vec![unit(
        "main",
        "fn main
pub a
pub b
let d = a - b
out d
return d
",
    )]);
    let stream = c.compile(&b"main".to_vec()).unwrap();
    let program = assemble(&emit(&stream)).unwrap();
    let artifacts = run(&program, &vec![9, 4], &vec![]).unwrap();
    assert_eq!(artifacts.claim_output, vec![5]);
}

#[test]
fn recursive_factorial_executes_correctly() {
    let c = compiler_with(vec![
        unit("main", "fn main
pub n
let r = call fact n
out r
return r
"),
        unit(
            "fact",
            "fn fact n
let r = 1
if n
let m = n - 1
let s = call fact m
set r = n * s
end
return r
",
        ),
    ]);
    let stream = c.compile(&b"main".to_vec()).unwrap();
    let program = assemble(&emit(&stream)).unwrap();
    let artifacts = run(&program, &vec![5], &vec![]).unwrap();
    assert_eq!(artifacts.claim_output, vec![120]);
}

#[test]
fn secret_inputs_feed_the_witness_stream() {
    let c = compiler_with(vec![unit(
        "main",
        "fn main
secret w
let sq = w * w
out sq
return sq
",
    )]);
    let stream = c.compile(&b"main".to_vec()).unwrap();
    let program = assemble(&emit(&stream)).unwrap();
    let artifacts = run(&program, &vec![], &vec![6]).unwrap();
    assert_eq!(artifacts.claim_output, vec![36]);
    assert_eq!(artifacts.claim_input, Vec::<u64>::new());
}

#[test]
fn a_trapping_program_reports_proving_failed() {
    // the entry returns without reading its inputs; handing the machine
    // a public input it never consumes makes the trace rejectable
    let c = compiler_with(vec![unit("main", "fn main\npub a\nout a\nreturn a\n")]);
    let stream = c.compile(&b"main".to_vec()).unwrap();
    let program = assemble(&emit(&stream)).unwrap();
    // no public input to read: the read_io instruction traps
    let r = run(&program, &vec![], &vec![]);
    assert!(matches!(r, Err(acc::error::Error::ProvingFailed { .. })));
}
