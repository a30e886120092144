//! The error taxonomy of the pipeline. Every failure of compilation,
//! input packaging, assembly or proving is reported as one of these
//! variants, always carrying the offending name, token or counts.

use vstd::prelude::*;

verus! {

/// A failure of the compilation or proving pipeline.
#[derive(Clone, Debug, PartialEq, Eq)]
pub enum Error {
    /// A referenced function name has no defining source unit.
    UnresolvedModule { name: Vec<u8> },
    /// A local or parameter reference inside a function body has no binding.
    UnresolvedSymbol { function: Vec<u8>, symbol: Vec<u8> },
    /// A call site's argument count disagrees with the callee's signature.
    ArityMismatch { expected: usize, got: usize },
    /// A source unit's text does not follow the source language's grammar.
    MalformedSource { name: Vec<u8> },
    /// A function's frame grew past the depth the target machine can
    /// address with its stack-relative instructions.
    StackDepthExceeded { function: Vec<u8> },
    /// The compilation run's monotonic label counter ran out of ids
    /// while minting this function's branch labels.
    LabelSpaceExhausted { function: Vec<u8> },
    /// The emitted assembly was rejected by the external assembler's
    /// grammar; indicates an internal inconsistency of the emitter.
    SyntaxError { detail: Vec<u8> },
    /// An input token fails to parse as a field element.
    InvalidInputLiteral { token: Vec<u8>, position: usize },
    /// The external engine could not produce a proof for the given
    /// program and inputs.
    ProvingFailed { detail: Vec<u8> },
}

} // verus!
