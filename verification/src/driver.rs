//! The back half of the pipeline: assembling emitted text into a
//! loadable program through the external assembler/linker, and driving
//! the external proving engine. Both collaborators are consumed at a
//! narrow boundary: each call stands behind a trusted declaration whose
//! contract states only what the collaborator's source shows, and the
//! verified code around it translates outcomes into the pipeline's own
//! error taxonomy.

use vstd::prelude::*;

use triton_vm::prelude::{BFieldElement, Claim, NonDeterminism, Program, Proof, PublicInput, Stark};

use crate::error::Error;
use crate::inputs::FIELD_ORDER;

verus! {

#[verifier::external_type_specification]
#[verifier::external_body]
/// The linked, address-resolved program object, owned by the external
/// assembler once produced; opaque to this library.
pub struct ExProgram(Program);

#[verifier::external_type_specification]
#[verifier::external_body]
/// The external proof system's parameter set; passed through, never
/// inspected.
pub struct ExStark(Stark);

#[verifier::external_type_specification]
#[verifier::external_body]
/// The externally verifiable claim of what was computed; passed
/// through, its public-input tokens echoed as plain values.
pub struct ExClaim(Claim);

#[verifier::external_type_specification]
#[verifier::external_body]
/// The proof bytes; passed through, never inspected.
pub struct ExProof(Proof);

/// Whether the external assembler accepts this exact text: the parse
/// performed by `Program::from_code` depends on the characters alone,
/// so acceptance is a function of the text.
pub uninterp spec fn assembles(text: Seq<u8>) -> bool;

/// Relies on `str::from_utf8` and `isa::program::Program::from_code`
/// (re-exported by the proof system crate): parses assembly text and
/// links labels to addresses, returning the program object or the
/// parser's message. Both are deterministic in the text, so acceptance
/// is named by `assembles`.
#[verifier::external_body]
fn assemble_call(text: &Vec<u8>) -> (r: Result<Program, Vec<u8>>)
    ensures
        r is Ok <==> assembles(text@),
{
    let s = match std::str::from_utf8(text.as_slice()) {
        Ok(s) => s,
        Err(e) => {
            return Err(format!("{e}").into_bytes());
        },
    };
    match Program::from_code(s) {
        Ok(p) => Ok(p),
        Err(e) => Err(format!("{e}").into_bytes()),
    }
}

/// Relies on `triton_vm::prove_program`: traces the program on the
/// given inputs and produces (parameters, claim, proof). Its source
/// builds the claim's input from the supplied public tokens, so on
/// success the echoed claim input equals the public input handed in;
/// `BFieldElement::new` is the identity on canonical values below the
/// field order. The echoed claim output is the program's public
/// output, of which nothing is promised here.
#[verifier::external_body]
fn prove_call(program: &Program, public: &Vec<u64>, secret: &Vec<u64>) -> (r:
    Result<
        (
            Stark,
            Claim,
            Proof,
            Vec<u64>,
            Vec<u64>,
        ),
        Vec<u8>,
    >)
    requires
        forall|i: int| 0 <= i < public@.len() ==> public@[i] < FIELD_ORDER,
    ensures
        r matches Ok(p) ==> p.3@ == public@,
{
    let pv: Vec<BFieldElement> = public.iter().map(|v| BFieldElement::new(*v)).collect();
    let sv: Vec<BFieldElement> = secret.iter().map(|v| BFieldElement::new(*v)).collect();
    match triton_vm::prove_program(program.clone(), PublicInput::new(pv), NonDeterminism::new(sv)) {
        Ok((stark, claim, proof)) => {
            let inp = claim.input.iter().map(|b| b.value()).collect();
            let outp = claim.output.iter().map(|b| b.value()).collect();
            Ok((stark, claim, proof, inp, outp))
        },
        Err(e) => Err(format!("{e}").into_bytes()),
    }
}

/// The artifacts of a successful proving run: the external parameter
/// set, claim and proof, passed through untouched, plus the claim's
/// public-input tokens as plain values.
pub struct Artifacts {
    pub stark: Stark,
    pub claim: Claim,
    pub proof: Proof,
    /// The public input the claim was built over, token for token.
    pub claim_input: Vec<u64>,
    /// The public output the machine produced, token for token.
    pub claim_output: Vec<u64>,
}

/// Assemble emitted text into a linked program: succeeds exactly when
/// the external assembler accepts the text. A rejection by its grammar
/// is an internal-consistency fault of the emitter, reported as
/// `SyntaxError` with the assembler's words.
pub fn assemble(text: &Vec<u8>) -> (r: Result<Program, Error>)
    ensures
        r is Ok <==> assembles(text@),
        r matches Err(e) ==> e is SyntaxError,
{
    match assemble_call(text) {
        Ok(p) => Ok(p),
        Err(detail) => Err(Error::SyntaxError { detail }),
    }
}

/// Drive the external proving engine once: no retries, every failure
/// reported as `ProvingFailed` with the engine's words. On success the
/// artifacts' echoed claim input equals the public input handed in.
pub fn run(program: &Program, public: &Vec<u64>, secret: &Vec<u64>) -> (r:
    Result<Artifacts, Error>)
    requires
        forall|i: int| 0 <= i < public@.len() ==> public@[i] < FIELD_ORDER,
    ensures
        r matches Ok(a) ==> a.claim_input@ == public@,
        r matches Err(e) ==> e is ProvingFailed,
{
    match prove_call(program, public, secret) {
        Ok((stark, claim, proof, inp, outp)) => Ok(
            Artifacts { stark, claim, proof, claim_input: inp, claim_output: outp },
        ),
        Err(detail) => Err(Error::ProvingFailed { detail }),
    }
}

} // verus!
