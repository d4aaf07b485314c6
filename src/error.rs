//! Why a proof is rejected. Every error is fatal to the whole check.
use vstd::prelude::*;

verus! {

#[derive(Debug, Clone, Copy, PartialEq, Eq, Structural)]
pub enum CheckError {
    /// A byte that names no instruction.
    UnknownInstruction,
    /// An instruction whose operands run past the end of the stream.
    Truncated,
    /// A `Version` instruction that names another encoding.
    VersionMismatch,
    /// An instruction that is reserved but has no meaning.
    Unimplemented,
    /// Popping from an empty stack.
    StackUnderflow,
    /// A proved term where a raw pattern was expected.
    ExpectedPattern,
    /// A raw pattern where a proved term was expected.
    ExpectedProved,
    /// A `Load` of a memory slot that was never filled.
    BadMemoryIndex,
    /// Terms left on the stack where it must be empty.
    StackNotEmpty,
    /// A `Publish` in the proof phase with no claim left to discharge.
    NoClaimLeft,
    /// Claims left unproved at the end of the proof phase.
    ClaimsLeft,
    /// A constructed meta-variable, fixpoint or substitution is ill-formed.
    IllFormed,
    /// A plug breaks a freshness, polarity or hole constraint of the
    /// meta-variable it instantiates.
    ConstraintViolated,
    /// A hole constraint checked on a pattern under a pending set
    /// substitution, which is not supported.
    HoleUnsupported,
    /// An instantiated meta-variable with no corresponding plug.
    MissingPlug,
    /// A substitution that would capture a free variable of its plug.
    Capture,
    /// An inference rule applied to a premise that is not an implication.
    NotImplication,
    /// A modus ponens whose premises do not match.
    AntecedentMismatch,
    /// A generalization whose binder is free in the conclusion.
    NotFresh,
    /// A Knaster-Tarski step whose body is not positive in the binder.
    NotPositive,
    /// A Knaster-Tarski step whose premise has the wrong left-hand side.
    WrongLhs,
    /// A published theorem that is not the expected claim.
    ClaimMismatch,
}

} // verus!
