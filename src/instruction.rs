//! The instruction set of the proof checker and its byte encoding.
use vstd::prelude::*;

verus! {

/// One byte of the instruction stream.
pub type InstByte = u8;

/// The on-the-wire instructions of a matching-logic proof.
#[derive(Debug, Clone, Copy, PartialEq, Eq, Structural)]
pub enum Instruction {
    // Patterns
    Bot,
    EVar,
    SVar,
    Symbol,
    Implies,
    App,
    Mu,
    Exists,
    // Meta patterns
    MetaVar,
    ESubst,
    SSubst,
    // Axiom schemas
    Prop1,
    Prop2,
    Prop3,
    Quantifier,
    PropagationOr,
    PropagationExists,
    PreFixpoint,
    Existence,
    Singleton,
    // Inference rules
    ModusPonens,
    Generalization,
    Framing,
    Substitution,
    KnasterTarski,
    // Meta inference rules
    Instantiate,
    // Stack manipulation
    Pop,
    // Memory manipulation
    Save,
    Load,
    // Version control
    Version,
    // Meta-variable with no constraints
    CleanMetaVar,
    // Journal manipulation
    Publish,
}

/// The byte that encodes each instruction.
pub open spec fn code_of(i: Instruction) -> InstByte {
    match i {
        Instruction::Bot => 1,
        Instruction::EVar => 2,
        Instruction::SVar => 3,
        Instruction::Symbol => 4,
        Instruction::Implies => 5,
        Instruction::App => 6,
        Instruction::Exists => 8,
        Instruction::Mu => 7,
        Instruction::MetaVar => 9,
        Instruction::ESubst => 10,
        Instruction::SSubst => 11,
        Instruction::Prop1 => 12,
        Instruction::Prop2 => 13,
        Instruction::Prop3 => 14,
        Instruction::Quantifier => 15,
        Instruction::PropagationOr => 16,
        Instruction::PropagationExists => 17,
        Instruction::PreFixpoint => 18,
        Instruction::Existence => 19,
        Instruction::Singleton => 20,
        Instruction::ModusPonens => 21,
        Instruction::Generalization => 22,
        Instruction::Framing => 23,
        Instruction::Substitution => 24,
        Instruction::KnasterTarski => 25,
        Instruction::Instantiate => 26,
        Instruction::Pop => 27,
        Instruction::Save => 28,
        Instruction::Load => 29,
        Instruction::Version => 31,
        Instruction::CleanMetaVar => 137,
        Instruction::Publish => 255,
    }
}

/// The instruction that a byte names, if any.
pub open spec fn decode(b: InstByte) -> Option<Instruction> {
    if b == 1 {
        Some(Instruction::Bot)
    } else if b == 2 {
        Some(Instruction::EVar)
    } else if b == 3 {
        Some(Instruction::SVar)
    } else if b == 4 {
        Some(Instruction::Symbol)
    } else if b == 5 {
        Some(Instruction::Implies)
    } else if b == 6 {
        Some(Instruction::App)
    } else if b == 7 {
        Some(Instruction::Mu)
    } else if b == 8 {
        Some(Instruction::Exists)
    } else if b == 9 {
        Some(Instruction::MetaVar)
    } else if b == 10 {
        Some(Instruction::ESubst)
    } else if b == 11 {
        Some(Instruction::SSubst)
    } else if b == 12 {
        Some(Instruction::Prop1)
    } else if b == 13 {
        Some(Instruction::Prop2)
    } else if b == 14 {
        Some(Instruction::Prop3)
    } else if b == 15 {
        Some(Instruction::Quantifier)
    } else if b == 16 {
        Some(Instruction::PropagationOr)
    } else if b == 17 {
        Some(Instruction::PropagationExists)
    } else if b == 18 {
        Some(Instruction::PreFixpoint)
    } else if b == 19 {
        Some(Instruction::Existence)
    } else if b == 20 {
        Some(Instruction::Singleton)
    } else if b == 21 {
        Some(Instruction::ModusPonens)
    } else if b == 22 {
        Some(Instruction::Generalization)
    } else if b == 23 {
        Some(Instruction::Framing)
    } else if b == 24 {
        Some(Instruction::Substitution)
    } else if b == 25 {
        Some(Instruction::KnasterTarski)
    } else if b == 26 {
        Some(Instruction::Instantiate)
    } else if b == 27 {
        Some(Instruction::Pop)
    } else if b == 28 {
        Some(Instruction::Save)
    } else if b == 29 {
        Some(Instruction::Load)
    } else if b == 31 {
        Some(Instruction::Version)
    } else if b == 137 {
        Some(Instruction::CleanMetaVar)
    } else if b == 255 {
        Some(Instruction::Publish)
    } else {
        None
    }
}

impl Instruction {
    /// Decodes one instruction byte; `None` for a byte that names none.
    pub fn from(value: InstByte) -> (r: Option<Instruction>)
        ensures
            r == decode(value),
    {
        match value {
            1 => Some(Instruction::Bot),
            2 => Some(Instruction::EVar),
            3 => Some(Instruction::SVar),
            4 => Some(Instruction::Symbol),
            5 => Some(Instruction::Implies),
            6 => Some(Instruction::App),
            7 => Some(Instruction::Mu),
            8 => Some(Instruction::Exists),
            9 => Some(Instruction::MetaVar),
            10 => Some(Instruction::ESubst),
            11 => Some(Instruction::SSubst),
            12 => Some(Instruction::Prop1),
            13 => Some(Instruction::Prop2),
            14 => Some(Instruction::Prop3),
            15 => Some(Instruction::Quantifier),
            16 => Some(Instruction::PropagationOr),
            17 => Some(Instruction::PropagationExists),
            18 => Some(Instruction::PreFixpoint),
            19 => Some(Instruction::Existence),
            20 => Some(Instruction::Singleton),
            21 => Some(Instruction::ModusPonens),
            22 => Some(Instruction::Generalization),
            23 => Some(Instruction::Framing),
            24 => Some(Instruction::Substitution),
            25 => Some(Instruction::KnasterTarski),
            26 => Some(Instruction::Instantiate),
            27 => Some(Instruction::Pop),
            28 => Some(Instruction::Save),
            29 => Some(Instruction::Load),
            31 => Some(Instruction::Version),
            137 => Some(Instruction::CleanMetaVar),
            255 => Some(Instruction::Publish),
            _ => None,
        }
    }

    /// The byte that encodes this instruction.
    pub fn code(&self) -> (r: InstByte)
        ensures
            r == code_of(*self),
    {
        match self {
            Instruction::Bot => 1,
            Instruction::EVar => 2,
            Instruction::SVar => 3,
            Instruction::Symbol => 4,
            Instruction::Implies => 5,
            Instruction::App => 6,
            Instruction::Exists => 8,
            Instruction::Mu => 7,
            Instruction::MetaVar => 9,
            Instruction::ESubst => 10,
            Instruction::SSubst => 11,
            Instruction::Prop1 => 12,
            Instruction::Prop2 => 13,
            Instruction::Prop3 => 14,
            Instruction::Quantifier => 15,
            Instruction::PropagationOr => 16,
            Instruction::PropagationExists => 17,
            Instruction::PreFixpoint => 18,
            Instruction::Existence => 19,
            Instruction::Singleton => 20,
            Instruction::ModusPonens => 21,
            Instruction::Generalization => 22,
            Instruction::Framing => 23,
            Instruction::Substitution => 24,
            Instruction::KnasterTarski => 25,
            Instruction::Instantiate => 26,
            Instruction::Pop => 27,
            Instruction::Save => 28,
            Instruction::Load => 29,
            Instruction::Version => 31,
            Instruction::CleanMetaVar => 137,
            Instruction::Publish => 255,
        }
    }
}

/// Every instruction is read back from its own byte, and a byte names at
/// most one instruction.
pub proof fn lemma_decode_code(i: Instruction, b: InstByte)
    ensures
        decode(code_of(i)) == Some(i),
        decode(b) == Some(i) ==> b == code_of(i),
{
}

} // verus!
