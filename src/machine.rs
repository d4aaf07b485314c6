//! The stack machine: its state, the meaning of each instruction as a
//! function on that state, and the interpreter that runs a byte stream.
use crate::error::CheckError;
use crate::instruction::{decode, InstByte, Instruction};
use crate::pattern::{
    app, bot, esubst, evar, exists_pattern, is_e_fresh, is_positive, is_well_formed,
    metavar_app_ctx_hole, metavar_positive, metavar_unconstrained, mu, not, pat_exists, pat_implies,
    pat_mu, pat_not, pattern_eq, ssubst, svar, symbol, Id, Pat, Pattern, Ptr,
};
use crate::subst::{apply_esubst, apply_ssubst, inst, instantiate, plug_views, ssubst_of};
use vstd::prelude::*;

verus! {

pub const VERSION_MAJOR: u8 = 3;

pub const VERSION_MINOR: u8 = 0;

/// A stack item: a raw pattern, or one proved to be a theorem.
#[derive(Debug)]
pub enum Term {
    Pattern(Ptr<Pattern>),
    Proved(Ptr<Pattern>),
}

/// A memory slot: a raw pattern, or one proved to be a theorem.
#[derive(Debug)]
pub enum Entry {
    Pattern(Ptr<Pattern>),
    Proved(Ptr<Pattern>),
}

/// Model of a stack item or memory slot.
pub ghost enum Tagged {
    Pattern(Pat),
    Proved(Pat),
}

impl View for Term {
    type V = Tagged;

    open spec fn view(&self) -> Tagged {
        match self {
            Term::Pattern(p) => Tagged::Pattern(p@),
            Term::Proved(p) => Tagged::Proved(p@),
        }
    }
}

impl View for Entry {
    type V = Tagged;

    open spec fn view(&self) -> Tagged {
        match self {
            Entry::Pattern(p) => Tagged::Pattern(p@),
            Entry::Proved(p) => Tagged::Proved(p@),
        }
    }
}

impl PartialEq for Term {
    fn eq(&self, other: &Term) -> (r: bool) {
        match (self, other) {
            (Term::Pattern(a), Term::Pattern(b)) => a == b,
            (Term::Proved(a), Term::Proved(b)) => a == b,
            _ => false,
        }
    }
}

impl vstd::std_specs::cmp::PartialEqSpecImpl for Term {
    open spec fn obeys_eq_spec() -> bool {
        true
    }

    open spec fn eq_spec(&self, other: &Term) -> bool {
        self@ == other@
    }
}

impl Eq for Term {

}

impl Clone for Term {
    fn clone(&self) -> (r: Term)
        ensures
            r@ == self@,
    {
        match self {
            Term::Pattern(p) => Term::Pattern(p.clone()),
            Term::Proved(p) => Term::Proved(p.clone()),
        }
    }
}

impl PartialEq for Entry {
    fn eq(&self, other: &Entry) -> (r: bool) {
        match (self, other) {
            (Entry::Pattern(a), Entry::Pattern(b)) => a == b,
            (Entry::Proved(a), Entry::Proved(b)) => a == b,
            _ => false,
        }
    }
}

impl vstd::std_specs::cmp::PartialEqSpecImpl for Entry {
    open spec fn obeys_eq_spec() -> bool {
        true
    }

    open spec fn eq_spec(&self, other: &Entry) -> bool {
        self@ == other@
    }
}

impl Eq for Entry {

}

/// Which of the three passes is running; it decides what `Publish` does.
#[derive(Debug, Clone, Copy, PartialEq, Eq, Structural)]
pub enum ExecutionPhase {
    Gamma,
    Claim,
    Proof,
}

pub type Stack = Vec<Term>;

pub type Claims = Vec<Ptr<Pattern>>;

pub type Memory = Vec<Entry>;

/// Model of the machine: the stack (top last), the memory and the claim
/// queue (next claim last).
pub ghost struct Machine {
    pub stack: Seq<Tagged>,
    pub memory: Seq<Tagged>,
    pub claims: Seq<Pat>,
}

pub open spec fn stack_view(s: Seq<Term>) -> Seq<Tagged> {
    s.map_values(|t: Term| t@)
}

pub open spec fn memory_view(m: Seq<Entry>) -> Seq<Tagged> {
    m.map_values(|e: Entry| e@)
}

pub open spec fn claims_view(c: Seq<Ptr<Pattern>>) -> Seq<Pat> {
    c.map_values(|p: Ptr<Pattern>| p@)
}

pub open spec fn machine_of(stack: Seq<Term>, memory: Seq<Entry>, claims: Seq<Ptr<Pattern>>) -> Machine {
    Machine { stack: stack_view(stack), memory: memory_view(memory), claims: claims_view(claims) }
}

pub open spec fn empty_machine() -> Machine {
    Machine { stack: seq![], memory: seq![], claims: seq![] }
}

/// Top of the stack and the rest.
pub open spec fn pop_spec(s: Seq<Tagged>) -> Result<(Tagged, Seq<Tagged>), CheckError> {
    if s.len() == 0 {
        Err(CheckError::StackUnderflow)
    } else {
        Ok((s.last(), s.drop_last()))
    }
}

pub open spec fn pop_pattern_spec(s: Seq<Tagged>) -> Result<(Pat, Seq<Tagged>), CheckError> {
    match pop_spec(s) {
        Ok((Tagged::Pattern(p), rest)) => Ok((p, rest)),
        Ok(_) => Err(CheckError::ExpectedPattern),
        Err(e) => Err(e),
    }
}

pub open spec fn pop_proved_spec(s: Seq<Tagged>) -> Result<(Pat, Seq<Tagged>), CheckError> {
    match pop_spec(s) {
        Ok((Tagged::Proved(p), rest)) => Ok((p, rest)),
        Ok(_) => Err(CheckError::ExpectedProved),
        Err(e) => Err(e),
    }
}

/// The byte at `i`, if the stream is that long.
pub open spec fn byte_at(buf: Seq<u8>, i: int) -> Option<u8> {
    if 0 <= i < buf.len() {
        Some(buf[i])
    } else {
        None
    }
}

/// A length-prefixed list of identifiers at `pos`, and the position after it.
pub open spec fn list_at(buf: Seq<u8>, pos: int) -> Option<(Seq<Id>, int)> {
    match byte_at(buf, pos) {
        None => None,
        Some(n) => if pos + 1 + n <= buf.len() {
            Some((buf.subrange(pos + 1, pos + 1 + n), pos + 1 + n))
        } else {
            None
        },
    }
}

/// Removes the top of the stack.
pub fn pop_stack(stack: &mut Stack) -> (r: Result<Term, CheckError>)
    ensures
        match pop_spec(stack_view(old(stack)@)) {
            Ok((t, rest)) => r matches Ok(u) && u@ == t && stack_view(final(stack)@) == rest,
            Err(e) => r == Err::<Term, CheckError>(e) && final(stack)@ == old(stack)@,
        },
{
    match stack.pop() {
        Some(t) => {
            assert(stack_view(stack@) =~= stack_view(old(stack)@).drop_last());
            Ok(t)
        },
        None => Err(CheckError::StackUnderflow),
    }
}

/// Removes the top of the stack, which must be a raw pattern.
pub fn pop_stack_pattern(stack: &mut Stack) -> (r: Result<Ptr<Pattern>, CheckError>)
    ensures
        match pop_pattern_spec(stack_view(old(stack)@)) {
            Ok((p, rest)) => r matches Ok(q) && q@ == p && stack_view(final(stack)@) == rest,
            Err(e) => r == Err::<Ptr<Pattern>, CheckError>(e),
        },
{
    match pop_stack(stack) {
        Ok(Term::Pattern(p)) => Ok(p),
        Ok(_) => Err(CheckError::ExpectedPattern),
        Err(e) => Err(e),
    }
}

/// Removes the top of the stack, which must be a proved pattern.
pub fn pop_stack_proved(stack: &mut Stack) -> (r: Result<Ptr<Pattern>, CheckError>)
    ensures
        match pop_proved_spec(stack_view(old(stack)@)) {
            Ok((p, rest)) => r matches Ok(q) && q@ == p && stack_view(final(stack)@) == rest,
            Err(e) => r == Err::<Ptr<Pattern>, CheckError>(e),
        },
{
    match pop_stack(stack) {
        Ok(Term::Proved(p)) => Ok(p),
        Ok(_) => Err(CheckError::ExpectedProved),
        Err(e) => Err(e),
    }
}

fn push_term(stack: &mut Stack, t: Term)
    ensures
        stack_view(final(stack)@) == stack_view(old(stack)@).push(t@),
{
    stack.push(t);
    assert(stack_view(stack@) =~= stack_view(old(stack)@).push(t@));
}

/// Reads the byte at `pos`.
fn read_byte(buffer: &Vec<InstByte>, pos: usize) -> (r: Result<u8, CheckError>)
    ensures
        match byte_at(buffer@, pos as int) {
            Some(b) => r == Ok::<u8, CheckError>(b),
            None => r == Err::<u8, CheckError>(CheckError::Truncated),
        },
{
    if pos < buffer.len() {
        Ok(buffer[pos])
    } else {
        Err(CheckError::Truncated)
    }
}

/// Reads a length-prefixed list of identifiers at `pos`; returns it with the
/// position after it.
pub fn read_u8_vec(buffer: &Vec<InstByte>, pos: usize) -> (r: Result<(Vec<u8>, usize), CheckError>)
    ensures
        match list_at(buffer@, pos as int) {
            Some((l, next)) => r matches Ok((v, n)) && v@ == l && n == next && n <= buffer.len(),
            None => r == Err::<(Vec<u8>, usize), CheckError>(CheckError::Truncated),
        },
{
    let len = match read_byte(buffer, pos) {
        Ok(n) => n as usize,
        Err(e) => return Err(e),
    };
    if len > buffer.len() - pos - 1 {
        return Err(CheckError::Truncated);
    }
    let start = pos + 1;
    let mut vec: Vec<u8> = Vec::with_capacity(len);
    let mut i: usize = 0;
    while i < len
        invariant
            start == pos + 1,
            start + len <= buffer.len(),
            i <= len,
            vec@ == buffer@.subrange(start as int, start + i),
        decreases len - i,
    {
        vec.push(buffer[start + i]);
        i = i + 1;
        assert(vec@ =~= buffer@.subrange(start as int, start + i));
    }
    Ok((vec, start + len))
}

pub open spec fn set_stack(m: Machine, s: Seq<Tagged>) -> Machine {
    Machine { stack: s, memory: m.memory, claims: m.claims }
}

/// The model of a handler's outcome: the position after the instruction and
/// the stack it leaves.
pub open spec fn stack_result(r: Result<usize, CheckError>, s: Seq<Term>) -> Result<
    (int, Seq<Tagged>),
    CheckError,
> {
    match r {
        Ok(n) => Ok((n as int, stack_view(s))),
        Err(e) => Err(e),
    }
}

pub open spec fn lift_stack(r: Result<(int, Seq<Tagged>), CheckError>, m: Machine) -> Result<
    (int, Machine),
    CheckError,
> {
    match r {
        Ok((n, s)) => Ok((n, set_stack(m, s))),
        Err(e) => Err(e),
    }
}

/// The unconstrained meta-variable `phi_i`.
pub open spec fn phi(i: Id) -> Pat {
    crate::pattern::unconstrained(i)
}

/// `phi0 -> (phi1 -> phi0)`
pub open spec fn prop1_pat() -> Pat {
    pat_implies(phi(0), pat_implies(phi(1), phi(0)))
}

/// `(phi0 -> (phi1 -> phi2)) -> ((phi0 -> phi1) -> (phi0 -> phi2))`
pub open spec fn prop2_pat() -> Pat {
    pat_implies(
        pat_implies(phi(0), pat_implies(phi(1), phi(2))),
        pat_implies(pat_implies(phi(0), phi(1)), pat_implies(phi(0), phi(2))),
    )
}

/// `not not phi0 -> phi0`
pub open spec fn prop3_pat() -> Pat {
    pat_implies(pat_not(pat_not(phi(0))), phi(0))
}

/// `phi0[y/x] -> exists x. phi0`
pub open spec fn quantifier_pat(x: Id, y: Id) -> Pat {
    pat_implies(
        if x == y {
            phi(0)
        } else {
            Pat::ESubst(Box::new(phi(0)), x, Box::new(Pat::EVar(y)))
        },
        pat_exists(x, phi(0)),
    )
}

/// `exists x. x`
pub open spec fn existence_pat(x: Id) -> Pat {
    pat_exists(x, Pat::EVar(x))
}

/// `phi0`, positive in `x`.
pub open spec fn positive_phi(x: Id) -> Pat {
    Pat::MetaVar {
        id: 0,
        e_fresh: seq![],
        s_fresh: seq![],
        positive: seq![x],
        negative: seq![],
        app_ctx_holes: seq![],
    }
}

/// `phi[mu x. phi / x] -> mu x. phi`, with `phi` positive in `x`.
pub open spec fn prefixpoint_pat(x: Id) -> Pat {
    pat_implies(
        Pat::SSubst(Box::new(positive_phi(x)), x, Box::new(pat_mu(x, positive_phi(x)))),
        pat_mu(x, positive_phi(x)),
    )
}

/// `phi0`, an application context with hole `h`.
pub open spec fn hole_phi(h: Id) -> Pat {
    Pat::MetaVar {
        id: 0,
        e_fresh: seq![],
        s_fresh: seq![],
        positive: seq![],
        negative: seq![],
        app_ctx_holes: seq![h],
    }
}

/// `phi0[p/h]`, with `phi0` an application context with hole `h`.
pub open spec fn frame_pat(h: Id, p: Pat) -> Pat {
    if p == Pat::EVar(h) {
        hole_phi(h)
    } else {
        Pat::ESubst(Box::new(hole_phi(h)), h, Box::new(p))
    }
}

/// A meta-variable written as an id and five length-prefixed lists, and the
/// position after it.
pub open spec fn metavar_at(buf: Seq<u8>, pos: int) -> Option<(Pat, int)> {
    match byte_at(buf, pos) {
        None => None,
        Some(id) => match list_at(buf, pos + 1) {
            None => None,
            Some((e, p1)) => match list_at(buf, p1) {
                None => None,
                Some((s, p2)) => match list_at(buf, p2) {
                    None => None,
                    Some((po, p3)) => match list_at(buf, p3) {
                        None => None,
                        Some((ne, p4)) => match list_at(buf, p4) {
                            None => None,
                            Some((h, p5)) => Some(
                                (
                                    Pat::MetaVar {
                                        id,
                                        e_fresh: e,
                                        s_fresh: s,
                                        positive: po,
                                        negative: ne,
                                        app_ctx_holes: h,
                                    },
                                    p5,
                                ),
                            ),
                        },
                    },
                },
            },
        },
    }
}

/// Pattern constructors: the effect on the stack of `i`, whose operands
/// start at `pos`.
pub open spec fn construct_spec(i: Instruction, buf: Seq<u8>, pos: int, s: Seq<Tagged>) -> Result<
    (int, Seq<Tagged>),
    CheckError,
> {
    match i {
        Instruction::Bot => Ok((pos, s.push(Tagged::Pattern(Pat::Bot)))),
        Instruction::EVar | Instruction::SVar | Instruction::Symbol | Instruction::CleanMetaVar => {
            match byte_at(buf, pos) {
                None => Err(CheckError::Truncated),
                Some(id) => Ok(
                    (
                        pos + 1,
                        s.push(
                            Tagged::Pattern(
                                match i {
                                    Instruction::EVar => Pat::EVar(id),
                                    Instruction::SVar => Pat::SVar(id),
                                    Instruction::Symbol => Pat::Symbol(id),
                                    _ => phi(id),
                                },
                            ),
                        ),
                    ),
                ),
            }
        },
        Instruction::Implies | Instruction::App => match pop_pattern_spec(s) {
            Err(e) => Err(e),
            Ok((r, s1)) => match pop_pattern_spec(s1) {
                Err(e) => Err(e),
                Ok((l, s2)) => Ok(
                    (
                        pos,
                        s2.push(
                            Tagged::Pattern(
                                if i is Implies {
                                    pat_implies(l, r)
                                } else {
                                    Pat::App(Box::new(l), Box::new(r))
                                },
                            ),
                        ),
                    ),
                ),
            },
        },
        Instruction::Exists | Instruction::Mu => match byte_at(buf, pos) {
            None => Err(CheckError::Truncated),
            Some(id) => match pop_pattern_spec(s) {
                Err(e) => Err(e),
                Ok((q, s1)) => if i is Mu && !is_positive(q, id) {
                    Err(CheckError::IllFormed)
                } else {
                    Ok(
                        (
                            pos + 1,
                            s1.push(
                                Tagged::Pattern(
                                    if i is Mu {
                                        pat_mu(id, q)
                                    } else {
                                        pat_exists(id, q)
                                    },
                                ),
                            ),
                        ),
                    )
                },
            },
        },
        Instruction::MetaVar => match metavar_at(buf, pos) {
            None => Err(CheckError::Truncated),
            Some((mv, next)) => if !is_well_formed(mv) {
                Err(CheckError::IllFormed)
            } else {
                Ok((next, s.push(Tagged::Pattern(mv))))
            },
        },
        Instruction::ESubst | Instruction::SSubst => match byte_at(buf, pos) {
            None => Err(CheckError::Truncated),
            Some(x) => match pop_pattern_spec(s) {
                Err(e) => Err(e),
                Ok((p, s1)) => match pop_pattern_spec(s1) {
                    Err(e) => Err(e),
                    Ok((q, s2)) => {
                        let t = if i is ESubst {
                            Pat::ESubst(Box::new(p), x, Box::new(q))
                        } else {
                            Pat::SSubst(Box::new(p), x, Box::new(q))
                        };
                        if !is_well_formed(t) {
                            Err(CheckError::IllFormed)
                        } else {
                            Ok((pos + 1, s2.push(Tagged::Pattern(t))))
                        }
                    },
                },
            },
        },
        _ => Err(CheckError::UnknownInstruction),
    }
}

/// Axiom schemas: the effect on the stack of `i`, whose operands start at
/// `pos`.
pub open spec fn axiom_spec(i: Instruction, buf: Seq<u8>, pos: int, s: Seq<Tagged>) -> Result<
    (int, Seq<Tagged>),
    CheckError,
> {
    match i {
        Instruction::Prop1 => Ok((pos, s.push(Tagged::Proved(prop1_pat())))),
        Instruction::Prop2 => Ok((pos, s.push(Tagged::Proved(prop2_pat())))),
        Instruction::Prop3 => Ok((pos, s.push(Tagged::Proved(prop3_pat())))),
        Instruction::Quantifier => match byte_at(buf, pos) {
            None => Err(CheckError::Truncated),
            Some(x) => match byte_at(buf, pos + 1) {
                None => Err(CheckError::Truncated),
                Some(y) => Ok((pos + 2, s.push(Tagged::Proved(quantifier_pat(x, y))))),
            },
        },
        Instruction::PreFixpoint => match byte_at(buf, pos) {
            None => Err(CheckError::Truncated),
            Some(x) => Ok((pos + 1, s.push(Tagged::Proved(prefixpoint_pat(x))))),
        },
        Instruction::Existence => match byte_at(buf, pos) {
            None => Err(CheckError::Truncated),
            Some(x) => Ok((pos + 1, s.push(Tagged::Proved(existence_pat(x))))),
        },
        _ => Err(CheckError::Unimplemented),
    }
}

/// Inference rules: the effect on the stack of `i`, whose operands start at
/// `pos`.
pub open spec fn rule_spec(i: Instruction, buf: Seq<u8>, pos: int, s: Seq<Tagged>) -> Result<
    (int, Seq<Tagged>),
    CheckError,
> {
    match i {
        Instruction::ModusPonens => match pop_proved_spec(s) {
            Err(e) => Err(e),
            Ok((p2, s1)) => match pop_proved_spec(s1) {
                Err(e) => Err(e),
                Ok((p1, s2)) => match p1 {
                    Pat::Implies(a, b) => if *a == p2 {
                        Ok((pos, s2.push(Tagged::Proved(*b))))
                    } else {
                        Err(CheckError::AntecedentMismatch)
                    },
                    _ => Err(CheckError::NotImplication),
                },
            },
        },
        Instruction::Generalization => match pop_proved_spec(s) {
            Err(e) => Err(e),
            Ok((t, s1)) => match t {
                Pat::Implies(l, r) => match byte_at(buf, pos) {
                    None => Err(CheckError::Truncated),
                    Some(x) => if !is_e_fresh(*r, x) {
                        Err(CheckError::NotFresh)
                    } else {
                        Ok((pos + 1, s1.push(Tagged::Proved(pat_implies(pat_exists(x, *l), *r)))))
                    },
                },
                _ => Err(CheckError::NotImplication),
            },
        },
        Instruction::Framing => match pop_proved_spec(s) {
            Err(e) => Err(e),
            Ok((t, s1)) => match t {
                Pat::Implies(l, r) => match byte_at(buf, pos) {
                    None => Err(CheckError::Truncated),
                    Some(h) => Ok(
                        (pos + 1, s1.push(Tagged::Proved(pat_implies(frame_pat(h, *l), frame_pat(h, *r))))),
                    ),
                },
                _ => Err(CheckError::NotImplication),
            },
        },
        Instruction::Substitution => match byte_at(buf, pos) {
            None => Err(CheckError::Truncated),
            Some(x) => match pop_proved_spec(s) {
                Err(e) => Err(e),
                Ok((p, s1)) => match pop_pattern_spec(s1) {
                    Err(e) => Err(e),
                    Ok((q, s2)) => match ssubst_of(p, x, q) {
                        Ok(t) => Ok((pos + 1, s2.push(Tagged::Proved(t)))),
                        Err(e) => Err(e),
                    },
                },
            },
        },
        Instruction::KnasterTarski => match pop_proved_spec(s) {
            Err(e) => Err(e),
            Ok((t, s1)) => match t {
                Pat::Implies(l, r) => match pop_pattern_spec(s1) {
                    Err(e) => Err(e),
                    Ok((body, s2)) => match byte_at(buf, pos) {
                        None => Err(CheckError::Truncated),
                        Some(x) => if !is_positive(body, x) {
                            Err(CheckError::NotPositive)
                        } else {
                            match ssubst_of(body, x, *r) {
                                Err(e) => Err(e),
                                Ok(u) => if u != *l {
                                    Err(CheckError::WrongLhs)
                                } else {
                                    Ok(
                                        (
                                            pos + 1,
                                            s2.push(Tagged::Proved(pat_implies(pat_mu(x, body), *r))),
                                        ),
                                    )
                                },
                            }
                        },
                    },
                },
                _ => Err(CheckError::NotImplication),
            },
        },
        _ => Err(CheckError::UnknownInstruction),
    }
}

/// The first `k` operands of an instantiation: each id read from the stream
/// and its plug popped from the stack, in turn.
pub open spec fn collect(buf: Seq<u8>, start: int, k: nat, s: Seq<Tagged>) -> Result<
    (Seq<Id>, Seq<Pat>, Seq<Tagged>),
    CheckError,
>
    decreases k,
{
    if k == 0 {
        Ok((seq![], seq![], s))
    } else {
        match collect(buf, start, (k - 1) as nat, s) {
            Err(e) => Err(e),
            Ok((ids, plugs, s1)) => match byte_at(buf, start + k - 1) {
                None => Err(CheckError::Truncated),
                Some(id) => match pop_pattern_spec(s1) {
                    Err(e) => Err(e),
                    Ok((q, s2)) => Ok((ids.push(id), plugs.push(q), s2)),
                },
            },
        }
    }
}

/// `Instantiate`: the term on top is instantiated with the plugs below it.
pub open spec fn instantiate_spec(buf: Seq<u8>, pos: int, s: Seq<Tagged>) -> Result<
    (int, Seq<Tagged>),
    CheckError,
> {
    match byte_at(buf, pos) {
        None => Err(CheckError::Truncated),
        Some(n) => match pop_spec(s) {
            Err(e) => Err(e),
            Ok((t, s1)) => match collect(buf, pos + 1, n as nat, s1) {
                Err(e) => Err(e),
                Ok((ids, plugs, s2)) => match t {
                    Tagged::Pattern(p) => match inst(p, ids, plugs) {
                        Ok(q) => Ok((pos + 1 + n, s2.push(Tagged::Pattern(q)))),
                        Err(e) => Err(e),
                    },
                    Tagged::Proved(p) => match inst(p, ids, plugs) {
                        Ok(q) => Ok((pos + 1 + n, s2.push(Tagged::Proved(q)))),
                        Err(e) => Err(e),
                    },
                },
            },
        },
    }
}

/// Stack, memory and version instructions.
pub open spec fn memory_spec(i: Instruction, buf: Seq<u8>, pos: int, m: Machine) -> Result<
    (int, Machine),
    CheckError,
> {
    match i {
        Instruction::Pop => match pop_spec(m.stack) {
            Ok((_, s1)) => Ok((pos, set_stack(m, s1))),
            Err(e) => Err(e),
        },
        Instruction::Save => if m.stack.len() == 0 {
            Err(CheckError::StackUnderflow)
        } else {
            Ok((pos, Machine { stack: m.stack, memory: m.memory.push(m.stack.last()), claims: m.claims }))
        },
        Instruction::Load => match byte_at(buf, pos) {
            None => Err(CheckError::Truncated),
            Some(k) => if k >= m.memory.len() {
                Err(CheckError::BadMemoryIndex)
            } else {
                Ok((pos + 1, set_stack(m, m.stack.push(m.memory[k as int]))))
            },
        },
        Instruction::Version => match byte_at(buf, pos) {
            None => Err(CheckError::Truncated),
            Some(major) => match byte_at(buf, pos + 1) {
                None => Err(CheckError::Truncated),
                Some(minor) => if major != VERSION_MAJOR || minor != VERSION_MINOR {
                    Err(CheckError::VersionMismatch)
                } else {
                    Ok((pos + 2, m))
                },
            },
        },
        _ => Err(CheckError::UnknownInstruction),
    }
}

/// `Publish`: what it does depends on the phase.
pub open spec fn publish_spec(m: Machine, phase: ExecutionPhase) -> Result<Machine, CheckError> {
    match phase {
        ExecutionPhase::Gamma => match pop_pattern_spec(m.stack) {
            Err(e) => Err(e),
            Ok((p, s1)) => if s1.len() > 0 {
                Err(CheckError::StackNotEmpty)
            } else {
                Ok(Machine { stack: s1, memory: m.memory.push(Tagged::Proved(p)), claims: m.claims })
            },
        },
        ExecutionPhase::Claim => match pop_pattern_spec(m.stack) {
            Err(e) => Err(e),
            Ok((p, s1)) => if s1.len() > 0 {
                Err(CheckError::StackNotEmpty)
            } else {
                Ok(Machine { stack: s1, memory: m.memory, claims: m.claims.push(p) })
            },
        },
        ExecutionPhase::Proof => if m.claims.len() == 0 {
            Err(CheckError::NoClaimLeft)
        } else {
            match pop_proved_spec(m.stack) {
                Err(e) => Err(e),
                Ok((t, s1)) => if m.claims.last() != t {
                    Err(CheckError::ClaimMismatch)
                } else {
                    Ok(Machine { stack: s1, memory: m.memory, claims: m.claims.drop_last() })
                },
            }
        },
    }
}

/// One instruction `i`, whose operands start at `pos`: the position after
/// it and the next machine.
pub open spec fn step_spec(
    i: Instruction,
    buf: Seq<u8>,
    pos: int,
    m: Machine,
    phase: ExecutionPhase,
) -> Result<(int, Machine), CheckError> {
    match i {
        Instruction::Bot | Instruction::EVar | Instruction::SVar | Instruction::Symbol
        | Instruction::Implies | Instruction::App | Instruction::Exists | Instruction::Mu
        | Instruction::MetaVar | Instruction::CleanMetaVar | Instruction::ESubst
        | Instruction::SSubst => lift_stack(construct_spec(i, buf, pos, m.stack), m),
        Instruction::Prop1 | Instruction::Prop2 | Instruction::Prop3 | Instruction::Quantifier
        | Instruction::PreFixpoint | Instruction::Existence | Instruction::PropagationOr
        | Instruction::PropagationExists | Instruction::Singleton => lift_stack(
            axiom_spec(i, buf, pos, m.stack),
            m,
        ),
        Instruction::ModusPonens | Instruction::Generalization | Instruction::Framing
        | Instruction::Substitution | Instruction::KnasterTarski => lift_stack(
            rule_spec(i, buf, pos, m.stack),
            m,
        ),
        Instruction::Instantiate => lift_stack(instantiate_spec(buf, pos, m.stack), m),
        Instruction::Publish => match publish_spec(m, phase) {
            Ok(m1) => Ok((pos, m1)),
            Err(e) => Err(e),
        },
        _ => memory_spec(i, buf, pos, m),
    }
}

/// Runs the instructions of `buf` from `pos` to its end.
pub open spec fn run(buf: Seq<u8>, pos: int, m: Machine, phase: ExecutionPhase) -> Result<
    Machine,
    CheckError,
>
    decreases buf.len() - pos,
{
    if pos < 0 || pos >= buf.len() {
        Ok(m)
    } else {
        match decode(buf[pos]) {
            None => Err(CheckError::UnknownInstruction),
            Some(i) => match step_spec(i, buf, pos + 1, m, phase) {
                Err(e) => Err(e),
                Ok((next, m1)) => if next > pos {
                    run(buf, next, m1, phase)
                } else {
                    Ok(m1)
                },
            },
        }
    }
}

/// The three phases in turn over one memory: the theory, the claims, the
/// proof.
pub open spec fn verify_spec(gamma: Seq<u8>, claims: Seq<u8>, proof: Seq<u8>) -> Result<
    (),
    CheckError,
> {
    match run(gamma, 0, empty_machine(), ExecutionPhase::Gamma) {
        Err(e) => Err(e),
        Ok(m1) => if m1.stack.len() > 0 {
            Err(CheckError::StackNotEmpty)
        } else {
            match run(claims, 0, m1, ExecutionPhase::Claim) {
                Err(e) => Err(e),
                Ok(m2) => if m2.stack.len() > 0 {
                    Err(CheckError::StackNotEmpty)
                } else {
                    match run(proof, 0, m2, ExecutionPhase::Proof) {
                        Err(e) => Err(e),
                        Ok(m3) => if m3.claims.len() > 0 {
                            Err(CheckError::ClaimsLeft)
                        } else {
                            Ok(())
                        },
                    }
                },
            }
        },
    }
}

fn prop1() -> (r: Ptr<Pattern>)
    ensures
        r@ == prop1_pat(),
{
    let phi0 = metavar_unconstrained(0);
    let phi1 = metavar_unconstrained(1);
    crate::pattern::implies(phi0.clone(), crate::pattern::implies(phi1, phi0))
}

fn prop2() -> (r: Ptr<Pattern>)
    ensures
        r@ == prop2_pat(),
{
    let phi0 = metavar_unconstrained(0);
    let phi1 = metavar_unconstrained(1);
    let phi2 = metavar_unconstrained(2);
    crate::pattern::implies(
        crate::pattern::implies(phi0.clone(), crate::pattern::implies(phi1.clone(), phi2.clone())),
        crate::pattern::implies(
            crate::pattern::implies(phi0.clone(), phi1),
            crate::pattern::implies(phi0, phi2),
        ),
    )
}

fn prop3() -> (r: Ptr<Pattern>)
    ensures
        r@ == prop3_pat(),
{
    let phi0 = metavar_unconstrained(0);
    crate::pattern::implies(not(not(phi0.clone())), phi0)
}

fn quantifier(evar_x_id: Id, evar_y_id: Id) -> (r: Ptr<Pattern>)
    ensures
        r@ == quantifier_pat(evar_x_id, evar_y_id),
{
    let body = match apply_esubst(metavar_unconstrained(0), evar_x_id, evar(evar_y_id)) {
        Ok(b) => b,
        Err(_) => unreached(),
    };
    crate::pattern::implies(body, exists_pattern(evar_x_id, metavar_unconstrained(0)))
}

fn existence(evar_id: Id) -> (r: Ptr<Pattern>)
    ensures
        r@ == existence_pat(evar_id),
{
    exists_pattern(evar_id, evar(evar_id))
}

fn prefixpoint(binder: Id) -> (r: Ptr<Pattern>)
    ensures
        r@ == prefixpoint_pat(binder),
{
    let phi = metavar_positive(0, binder);
    let fp = mu(binder, phi.clone());
    let body = match apply_ssubst(phi.clone(), binder, fp.clone()) {
        Ok(b) => b,
        Err(_) => unreached(),
    };
    crate::pattern::implies(body, fp)
}

fn frame(hole: Id, p: Ptr<Pattern>) -> (r: Ptr<Pattern>)
    ensures
        r@ == frame_pat(hole, p@),
{
    let phi = metavar_app_ctx_hole(0, hole);
    match apply_esubst(phi, hole, p) {
        Ok(b) => b,
        Err(_) => unreached(),
    }
}

/// Reads a meta-variable written as an id and five length-prefixed lists.
fn read_metavar(buffer: &Vec<InstByte>, pos: usize) -> (r: Result<(Ptr<Pattern>, usize), CheckError>)
    requires
        pos <= buffer.len(),
    ensures
        match metavar_at(buffer@, pos as int) {
            Some((mv, next)) => r matches Ok((p, n)) && p@ == mv && n == next && n <= buffer.len(),
            None => r == Err::<(Ptr<Pattern>, usize), CheckError>(CheckError::Truncated),
        },
{
    let id = match read_byte(buffer, pos) {
        Ok(id) => id,
        Err(e) => return Err(e),
    };
    let (e_fresh, p1) = match read_u8_vec(buffer, pos + 1) {
        Ok(l) => l,
        Err(e) => return Err(e),
    };
    let (s_fresh, p2) = match read_u8_vec(buffer, p1) {
        Ok(l) => l,
        Err(e) => return Err(e),
    };
    let (positive, p3) = match read_u8_vec(buffer, p2) {
        Ok(l) => l,
        Err(e) => return Err(e),
    };
    let (negative, p4) = match read_u8_vec(buffer, p3) {
        Ok(l) => l,
        Err(e) => return Err(e),
    };
    let (app_ctx_holes, p5) = match read_u8_vec(buffer, p4) {
        Ok(l) => l,
        Err(e) => return Err(e),
    };
    let mv = Ptr::new(Pattern::MetaVar { id, e_fresh, s_fresh, positive, negative, app_ctx_holes });
    Ok((mv, p5))
}

fn construct_leaf(instr: Instruction, buffer: &Vec<InstByte>, pos: usize, stack: &mut Stack) -> (r: Result<
    usize,
    CheckError,
>)
    requires
        pos <= buffer.len(),
        instr is Bot || instr is EVar || instr is SVar || instr is Symbol || instr is CleanMetaVar,
    ensures
        stack_result(r, final(stack)@) == construct_spec(
            instr,
            buffer@,
            pos as int,
            stack_view(old(stack)@),
        ),
        r matches Ok(n) ==> pos <= n <= buffer.len(),
{
    if let Instruction::Bot = instr {
        push_term(stack, Term::Pattern(bot()));
        return Ok(pos);
    }
    let id = match read_byte(buffer, pos) {
        Ok(id) => id,
        Err(e) => return Err(e),
    };
    let p = match instr {
        Instruction::EVar => evar(id),
        Instruction::SVar => svar(id),
        Instruction::Symbol => symbol(id),
        _ => metavar_unconstrained(id),
    };
    push_term(stack, Term::Pattern(p));
    Ok(pos + 1)
}

fn construct_binary(instr: Instruction, buffer: &Vec<InstByte>, pos: usize, stack: &mut Stack) -> (r: Result<
    usize,
    CheckError,
>)
    requires
        pos <= buffer.len(),
        instr is Implies || instr is App,
    ensures
        stack_result(r, final(stack)@) == construct_spec(
            instr,
            buffer@,
            pos as int,
            stack_view(old(stack)@),
        ),
        r matches Ok(n) ==> pos <= n <= buffer.len(),
{
    let right = match pop_stack_pattern(stack) {
        Ok(p) => p,
        Err(e) => return Err(e),
    };
    let left = match pop_stack_pattern(stack) {
        Ok(p) => p,
        Err(e) => return Err(e),
    };
    let p = if let Instruction::Implies = instr {
        crate::pattern::implies(left, right)
    } else {
        app(left, right)
    };
    push_term(stack, Term::Pattern(p));
    Ok(pos)
}

fn construct_binder(instr: Instruction, buffer: &Vec<InstByte>, pos: usize, stack: &mut Stack) -> (r: Result<
    usize,
    CheckError,
>)
    requires
        pos <= buffer.len(),
        instr is Exists || instr is Mu,
    ensures
        stack_result(r, final(stack)@) == construct_spec(
            instr,
            buffer@,
            pos as int,
            stack_view(old(stack)@),
        ),
        r matches Ok(n) ==> pos <= n <= buffer.len(),
{
    let id = match read_byte(buffer, pos) {
        Ok(id) => id,
        Err(e) => return Err(e),
    };
    let subpattern = match pop_stack_pattern(stack) {
        Ok(p) => p,
        Err(e) => return Err(e),
    };
    let p = if let Instruction::Mu = instr {
        let mu_pat = mu(id, subpattern);
        if !mu_pat.get().well_formed() {
            return Err(CheckError::IllFormed);
        }
        mu_pat
    } else {
        exists_pattern(id, subpattern)
    };
    push_term(stack, Term::Pattern(p));
    Ok(pos + 1)
}

fn construct_metavar(instr: Instruction, buffer: &Vec<InstByte>, pos: usize, stack: &mut Stack) -> (r: Result<
    usize,
    CheckError,
>)
    requires
        pos <= buffer.len(),
        instr is MetaVar,
    ensures
        stack_result(r, final(stack)@) == construct_spec(
            instr,
            buffer@,
            pos as int,
            stack_view(old(stack)@),
        ),
        r matches Ok(n) ==> pos <= n <= buffer.len(),
{
    let (metavar_pat, next) = match read_metavar(buffer, pos) {
        Ok(r) => r,
        Err(e) => return Err(e),
    };
    if !metavar_pat.get().well_formed() {
        return Err(CheckError::IllFormed);
    }
    push_term(stack, Term::Pattern(metavar_pat));
    Ok(next)
}

fn construct_subst(instr: Instruction, buffer: &Vec<InstByte>, pos: usize, stack: &mut Stack) -> (r: Result<
    usize,
    CheckError,
>)
    requires
        pos <= buffer.len(),
        instr is ESubst || instr is SSubst,
    ensures
        stack_result(r, final(stack)@) == construct_spec(
            instr,
            buffer@,
            pos as int,
            stack_view(old(stack)@),
        ),
        r matches Ok(n) ==> pos <= n <= buffer.len(),
{
    let id = match read_byte(buffer, pos) {
        Ok(id) => id,
        Err(e) => return Err(e),
    };
    let pattern = match pop_stack_pattern(stack) {
        Ok(p) => p,
        Err(e) => return Err(e),
    };
    let plug = match pop_stack_pattern(stack) {
        Ok(p) => p,
        Err(e) => return Err(e),
    };
    let subst_pat = if let Instruction::ESubst = instr {
        esubst(pattern, id, plug)
    } else {
        ssubst(pattern, id, plug)
    };
    if !subst_pat.get().well_formed() {
        return Err(CheckError::IllFormed);
    }
    push_term(stack, Term::Pattern(subst_pat));
    Ok(pos + 1)
}
/// Axiom schemas.
fn execute_axiom(instr: Instruction, buffer: &Vec<InstByte>, pos: usize, stack: &mut Stack) -> (r: Result<
    usize,
    CheckError,
>)
    requires
        pos <= buffer.len(),
        instr is Prop1 || instr is Prop2 || instr is Prop3 || instr is Quantifier || instr is PreFixpoint || instr is Existence || instr is PropagationOr || instr is PropagationExists || instr is Singleton,
    ensures
        stack_result(r, final(stack)@) == axiom_spec(instr, buffer@, pos as int, stack_view(old(stack)@)),
        r matches Ok(n) ==> pos <= n <= buffer.len(),
{
    match instr {
        Instruction::Prop1 => {
            push_term(stack, Term::Proved(prop1()));
            Ok(pos)
        },
        Instruction::Prop2 => {
            push_term(stack, Term::Proved(prop2()));
            Ok(pos)
        },
        Instruction::Prop3 => {
            push_term(stack, Term::Proved(prop3()));
            Ok(pos)
        },
        Instruction::Quantifier => {
            let evar_x_id = match read_byte(buffer, pos) {
                Ok(id) => id,
                Err(e) => return Err(e),
            };
            let evar_y_id = match read_byte(buffer, pos + 1) {
                Ok(id) => id,
                Err(e) => return Err(e),
            };
            push_term(stack, Term::Proved(quantifier(evar_x_id, evar_y_id)));
            Ok(pos + 2)
        },
        Instruction::PreFixpoint => {
            let binder = match read_byte(buffer, pos) {
                Ok(id) => id,
                Err(e) => return Err(e),
            };
            push_term(stack, Term::Proved(prefixpoint(binder)));
            Ok(pos + 1)
        },
        Instruction::Existence => {
            let evar_id = match read_byte(buffer, pos) {
                Ok(id) => id,
                Err(e) => return Err(e),
            };
            push_term(stack, Term::Proved(existence(evar_id)));
            Ok(pos + 1)
        },
        _ => Err(CheckError::Unimplemented),
    }
}

/// Modus ponens.
fn execute_modus_ponens(instr: Instruction, buffer: &Vec<InstByte>, pos: usize, stack: &mut Stack) -> (r: Result<
    usize,
    CheckError,
>)
    requires
        pos <= buffer.len(),
        instr is ModusPonens,
    ensures
        stack_result(r, final(stack)@) == rule_spec(instr, buffer@, pos as int, stack_view(old(stack)@)),
        r matches Ok(n) ==> pos <= n <= buffer.len(),
{
    let premise2 = match pop_stack_proved(stack) {
        Ok(p) => p,
        Err(e) => return Err(e),
    };
    let premise1 = match pop_stack_proved(stack) {
        Ok(p) => p,
        Err(e) => return Err(e),
    };
    match premise1.get() {
        Pattern::Implies { left, right } => {
            if !pattern_eq(left.get(), premise2.get()) {
                return Err(CheckError::AntecedentMismatch);
            }
            push_term(stack, Term::Proved(right.clone()));
            Ok(pos)
        },
        _ => Err(CheckError::NotImplication),
    }
}

/// Generalization and framing.
fn execute_generalization(instr: Instruction, buffer: &Vec<InstByte>, pos: usize, stack: &mut Stack) -> (r: Result<
    usize,
    CheckError,
>)
    requires
        pos <= buffer.len(),
        instr is Generalization || instr is Framing,
    ensures
        stack_result(r, final(stack)@) == rule_spec(instr, buffer@, pos as int, stack_view(old(stack)@)),
        r matches Ok(n) ==> pos <= n <= buffer.len(),
{
    let premise = match pop_stack_proved(stack) {
        Ok(p) => p,
        Err(e) => return Err(e),
    };
    match premise.get() {
        Pattern::Implies { left, right } => {
            let id = match read_byte(buffer, pos) {
                Ok(id) => id,
                Err(e) => return Err(e),
            };
            if let Instruction::Generalization = instr {
                if !right.get().e_fresh(id) {
                    return Err(CheckError::NotFresh);
                }
                push_term(
                    stack,
                    Term::Proved(crate::pattern::implies(exists_pattern(id, left.clone()), right.clone())),
                );
            } else {
                push_term(
                    stack,
                    Term::Proved(crate::pattern::implies(frame(id, left.clone()), frame(id, right.clone()))),
                );
            }
            Ok(pos + 1)
        },
        _ => Err(CheckError::NotImplication),
    }
}

/// Set-variable substitution into a theorem.
fn execute_substitution(instr: Instruction, buffer: &Vec<InstByte>, pos: usize, stack: &mut Stack) -> (r: Result<
    usize,
    CheckError,
>)
    requires
        pos <= buffer.len(),
        instr is Substitution,
    ensures
        stack_result(r, final(stack)@) == rule_spec(instr, buffer@, pos as int, stack_view(old(stack)@)),
        r matches Ok(n) ==> pos <= n <= buffer.len(),
{
    let svar_id = match read_byte(buffer, pos) {
        Ok(id) => id,
        Err(e) => return Err(e),
    };
    let pattern = match pop_stack_proved(stack) {
        Ok(p) => p,
        Err(e) => return Err(e),
    };
    let plug = match pop_stack_pattern(stack) {
        Ok(p) => p,
        Err(e) => return Err(e),
    };
    match apply_ssubst(pattern, svar_id, plug) {
        Ok(t) => {
            push_term(stack, Term::Proved(t));
            Ok(pos + 1)
        },
        Err(e) => Err(e),
    }
}

/// The Knaster-Tarski rule.
fn execute_knaster_tarski(instr: Instruction, buffer: &Vec<InstByte>, pos: usize, stack: &mut Stack) -> (r: Result<
    usize,
    CheckError,
>)
    requires
        pos <= buffer.len(),
        instr is KnasterTarski,
    ensures
        stack_result(r, final(stack)@) == rule_spec(instr, buffer@, pos as int, stack_view(old(stack)@)),
        r matches Ok(n) ==> pos <= n <= buffer.len(),
{
    let premise = match pop_stack_proved(stack) {
        Ok(p) => p,
        Err(e) => return Err(e),
    };
    match premise.get() {
        Pattern::Implies { left, right } => {
            let phi = match pop_stack_pattern(stack) {
                Ok(p) => p,
                Err(e) => return Err(e),
            };
            let binder = match read_byte(buffer, pos) {
                Ok(id) => id,
                Err(e) => return Err(e),
            };
            if !phi.get().positive(binder) {
                return Err(CheckError::NotPositive);
            }
            let unfolded = match apply_ssubst(phi.clone(), binder, right.clone()) {
                Ok(u) => u,
                Err(e) => return Err(e),
            };
            if !pattern_eq(unfolded.get(), left.get()) {
                return Err(CheckError::WrongLhs);
            }
            push_term(stack, Term::Proved(crate::pattern::implies(mu(binder, phi), right.clone())));
            Ok(pos + 1)
        },
        _ => Err(CheckError::NotImplication),
    }
}

/// Once an instantiation's operands fail, reading more of them fails alike.
proof fn lemma_collect_err(buf: Seq<u8>, start: int, k: nat, k2: nat, s: Seq<Tagged>)
    requires
        collect(buf, start, k, s) is Err,
        k <= k2,
    ensures
        collect(buf, start, k2, s) == collect(buf, start, k, s),
    decreases k2,
{
    if k2 > k {
        lemma_collect_err(buf, start, k, (k2 - 1) as nat, s);
    }
}

/// `Instantiate`.
fn execute_instantiate(buffer: &Vec<InstByte>, pos: usize, stack: &mut Stack) -> (r: Result<
    usize,
    CheckError,
>)
    requires
        pos <= buffer.len(),
    ensures
        stack_result(r, final(stack)@) == instantiate_spec(buffer@, pos as int, stack_view(old(stack)@)),
        r matches Ok(n) ==> pos <= n <= buffer.len(),
{
    let ghost s0 = stack_view(stack@);
    let n = match read_byte(buffer, pos) {
        Ok(n) => n as usize,
        Err(e) => return Err(e),
    };
    let metaterm = match pop_stack(stack) {
        Ok(t) => t,
        Err(e) => return Err(e),
    };
    let ghost s1 = stack_view(stack@);
    let start = pos + 1;
    let mut ids: Vec<Id> = Vec::with_capacity(n);
    let mut plugs: Vec<Ptr<Pattern>> = Vec::with_capacity(n);
    let mut i: usize = 0;
    assert(ids@ =~= Seq::<Id>::empty());
    assert(plug_views(plugs@) =~= Seq::<Pat>::empty());
    while i < n
        invariant
            i <= n,
            n < 256,
            byte_at(buffer@, pos as int) == Some(n as u8),
            s0 == stack_view(old(stack)@),
            pop_spec(s0) == Ok::<(Tagged, Seq<Tagged>), CheckError>((metaterm@, s1)),
            start == pos + 1,
            start <= buffer.len(),
            collect(buffer@, start as int, i as nat, s1) == Ok::<
                (Seq<Id>, Seq<Pat>, Seq<Tagged>),
                CheckError,
            >((ids@, plug_views(plugs@), stack_view(stack@))),
        decreases n - i,
    {
        if i >= buffer.len() - start {
            proof {
                assert(collect(buffer@, start as int, (i + 1) as nat, s1) == Err::<
                    (Seq<Id>, Seq<Pat>, Seq<Tagged>),
                    CheckError,
                >(CheckError::Truncated));
                lemma_collect_err(buffer@, start as int, (i + 1) as nat, n as nat, s1);
            }
            return Err(CheckError::Truncated);
        }
        let id = buffer[start + i];
        let plug = match pop_stack_pattern(stack) {
            Ok(p) => p,
            Err(e) => {
                proof {
                    lemma_collect_err(buffer@, start as int, (i + 1) as nat, n as nat, s1);
                }
                return Err(e);
            },
        };
        let ghost old_plugs = plugs@;
        ids.push(id);
        plugs.push(plug);
        assert(plug_views(plugs@) =~= plug_views(old_plugs).push(plugs@.last()@));
        i = i + 1;
    }
    match metaterm {
        Term::Pattern(p) => match instantiate(p, ids.as_slice(), plugs.as_slice()) {
            Ok(q) => push_term(stack, Term::Pattern(q)),
            Err(e) => return Err(e),
        },
        Term::Proved(p) => match instantiate(p, ids.as_slice(), plugs.as_slice()) {
            Ok(q) => push_term(stack, Term::Proved(q)),
            Err(e) => return Err(e),
        },
    }
    Ok(start + n)
}

/// The model of an outcome that may touch memory and claims too.
pub open spec fn machine_result(
    r: Result<usize, CheckError>,
    stack: Seq<Term>,
    memory: Seq<Entry>,
    claims: Seq<Ptr<Pattern>>,
) -> Result<(int, Machine), CheckError> {
    match r {
        Ok(n) => Ok((n as int, machine_of(stack, memory, claims))),
        Err(e) => Err(e),
    }
}

/// `Pop`, `Save`, `Load` and `Version`.
fn execute_memory(
    instr: Instruction,
    buffer: &Vec<InstByte>,
    pos: usize,
    stack: &mut Stack,
    memory: &mut Memory,
    claims: &Claims,
) -> (r: Result<usize, CheckError>)
    requires
        pos <= buffer.len(),
        instr is Pop || instr is Save || instr is Load || instr is Version,
    ensures
        machine_result(r, final(stack)@, final(memory)@, claims@) == memory_spec(
            instr,
            buffer@,
            pos as int,
            machine_of(old(stack)@, old(memory)@, claims@),
        ),
        r matches Ok(n) ==> pos <= n <= buffer.len(),
{
    match instr {
        Instruction::Pop => match pop_stack(stack) {
            Ok(_) => Ok(pos),
            Err(e) => Err(e),
        },
        Instruction::Save => {
            if stack.len() == 0 {
                return Err(CheckError::StackUnderflow);
            }
            let entry = match &stack[stack.len() - 1] {
                Term::Pattern(p) => Entry::Pattern(p.clone()),
                Term::Proved(p) => Entry::Proved(p.clone()),
            };
            assert(entry@ == stack_view(stack@).last());
            memory.push(entry);
            assert(memory_view(memory@) =~= memory_view(old(memory)@).push(entry@));
            Ok(pos)
        },
        Instruction::Load => {
            let index = match read_byte(buffer, pos) {
                Ok(i) => i as usize,
                Err(e) => return Err(e),
            };
            if index >= memory.len() {
                return Err(CheckError::BadMemoryIndex);
            }
            let term = match &memory[index] {
                Entry::Pattern(p) => Term::Pattern(p.clone()),
                Entry::Proved(p) => Term::Proved(p.clone()),
            };
            assert(term@ == memory_view(memory@)[index as int]);
            push_term(stack, term);
            Ok(pos + 1)
        },
        _ => {
            let major = match read_byte(buffer, pos) {
                Ok(b) => b,
                Err(e) => return Err(e),
            };
            let minor = match read_byte(buffer, pos + 1) {
                Ok(b) => b,
                Err(e) => return Err(e),
            };
            if major != VERSION_MAJOR || minor != VERSION_MINOR {
                return Err(CheckError::VersionMismatch);
            }
            Ok(pos + 2)
        },
    }
}

/// The model of an outcome of `Publish`.
pub open spec fn publish_result(
    r: Result<(), CheckError>,
    stack: Seq<Term>,
    memory: Seq<Entry>,
    claims: Seq<Ptr<Pattern>>,
) -> Result<Machine, CheckError> {
    match r {
        Ok(_) => Ok(machine_of(stack, memory, claims)),
        Err(e) => Err(e),
    }
}

/// `Publish`: in the theory phase the pattern on top becomes an axiom in
/// memory; in the claim phase it is queued as a claim; in the proof phase the
/// theorem on top must be the next claim.
fn execute_publish(
    stack: &mut Stack,
    memory: &mut Memory,
    claims: &mut Claims,
    phase: ExecutionPhase,
) -> (r: Result<(), CheckError>)
    ensures
        publish_result(r, final(stack)@, final(memory)@, final(claims)@) == publish_spec(
            machine_of(old(stack)@, old(memory)@, old(claims)@),
            phase,
        ),
{
    match phase {
        ExecutionPhase::Gamma => {
            let p = match pop_stack_pattern(stack) {
                Ok(p) => p,
                Err(e) => return Err(e),
            };
            if stack.len() > 0 {
                return Err(CheckError::StackNotEmpty);
            }
            let ghost pv = p@;
            memory.push(Entry::Proved(p));
            assert(memory_view(memory@) =~= memory_view(old(memory)@).push(Tagged::Proved(pv)));
            Ok(())
        },
        ExecutionPhase::Claim => {
            let claim = match pop_stack_pattern(stack) {
                Ok(p) => p,
                Err(e) => return Err(e),
            };
            if stack.len() > 0 {
                return Err(CheckError::StackNotEmpty);
            }
            let ghost pv = claim@;
            claims.push(claim);
            assert(claims_view(claims@) =~= claims_view(old(claims)@).push(pv));
            Ok(())
        },
        ExecutionPhase::Proof => {
            let claim = match claims.pop() {
                Some(c) => c,
                None => return Err(CheckError::NoClaimLeft),
            };
            assert(claims_view(claims@) =~= claims_view(old(claims)@).drop_last());
            let theorem = match pop_stack_proved(stack) {
                Ok(p) => p,
                Err(e) => return Err(e),
            };
            if !pattern_eq(claim.get(), theorem.get()) {
                return Err(CheckError::ClaimMismatch);
            }
            Ok(())
        },
    }
}

/// Executes the instruction at `pos`; returns the position after it.
fn execute_step(
    buffer: &Vec<InstByte>,
    pos: usize,
    stack: &mut Stack,
    memory: &mut Memory,
    claims: &mut Claims,
    phase: ExecutionPhase,
) -> (r: Result<usize, CheckError>)
    requires
        pos < buffer.len(),
    ensures
        match decode(buffer@[pos as int]) {
            None => r == Err::<usize, CheckError>(CheckError::UnknownInstruction),
            Some(i) => machine_result(r, final(stack)@, final(memory)@, final(claims)@) == step_spec(
                i,
                buffer@,
                pos + 1,
                machine_of(old(stack)@, old(memory)@, old(claims)@),
                phase,
            ),
        },
        r matches Ok(n) ==> pos < n <= buffer.len(),
{
    let instr = match Instruction::from(buffer[pos]) {
        Some(i) => i,
        None => return Err(CheckError::UnknownInstruction),
    };
    let next = pos + 1;
    match instr {
        Instruction::Bot | Instruction::EVar | Instruction::SVar | Instruction::Symbol
        | Instruction::CleanMetaVar => construct_leaf(instr, buffer, next, stack),
        Instruction::Implies | Instruction::App => construct_binary(instr, buffer, next, stack),
        Instruction::Exists | Instruction::Mu => construct_binder(instr, buffer, next, stack),
        Instruction::MetaVar => construct_metavar(instr, buffer, next, stack),
        Instruction::ESubst | Instruction::SSubst => construct_subst(instr, buffer, next, stack),
        Instruction::Prop1 | Instruction::Prop2 | Instruction::Prop3 | Instruction::Quantifier
        | Instruction::PreFixpoint | Instruction::Existence | Instruction::PropagationOr
        | Instruction::PropagationExists | Instruction::Singleton => execute_axiom(
            instr,
            buffer,
            next,
            stack,
        ),
        Instruction::ModusPonens => execute_modus_ponens(instr, buffer, next, stack),
        Instruction::Generalization | Instruction::Framing => execute_generalization(
            instr,
            buffer,
            next,
            stack,
        ),
        Instruction::Substitution => execute_substitution(instr, buffer, next, stack),
        Instruction::KnasterTarski => execute_knaster_tarski(instr, buffer, next, stack),
        Instruction::Instantiate => execute_instantiate(buffer, next, stack),
        Instruction::Publish => match execute_publish(stack, memory, claims, phase) {
            Ok(()) => Ok(next),
            Err(e) => Err(e),
        },
        _ => execute_memory(instr, buffer, next, stack, memory, claims),
    }
}

/// Runs every instruction of `buffer` in `phase` over the given stack,
/// memory and claim queue. On success they hold what the run leaves.
pub fn execute_instructions(
    buffer: &Vec<InstByte>,
    stack: &mut Stack,
    memory: &mut Memory,
    claims: &mut Claims,
    phase: ExecutionPhase,
) -> (r: Result<(), CheckError>)
    ensures
        match run(buffer@, 0, machine_of(old(stack)@, old(memory)@, old(claims)@), phase) {
            Ok(m) => r is Ok && machine_of(final(stack)@, final(memory)@, final(claims)@) == m,
            Err(e) => r == Err::<(), CheckError>(e),
        },
{
    let ghost m0 = machine_of(stack@, memory@, claims@);
    let mut pos: usize = 0;
    while pos < buffer.len()
        invariant
            pos <= buffer.len(),
            m0 == machine_of(old(stack)@, old(memory)@, old(claims)@),
            run(buffer@, 0, m0, phase) == run(
                buffer@,
                pos as int,
                machine_of(stack@, memory@, claims@),
                phase,
            ),
        decreases buffer.len() - pos,
    {
        match execute_step(buffer, pos, stack, memory, claims, phase) {
            Ok(next) => {
                pos = next;
            },
            Err(e) => return Err(e),
        }
    }
    Ok(())
}

/// Checks a proof: runs the theory, then the claims, then the proof, over one
/// memory. Succeeds exactly when every phase runs through, the first two
/// leave the stack empty, and the proof discharges every claim.
pub fn verify(gamma_buffer: &Vec<InstByte>, claims_buffer: &Vec<InstByte>, proof_buffer: &Vec<
    InstByte,
>) -> (r: Result<(), CheckError>)
    ensures
        r == verify_spec(gamma_buffer@, claims_buffer@, proof_buffer@),
{
    let mut claims: Claims = Vec::with_capacity(2);
    let mut memory: Memory = Vec::with_capacity(256);
    let mut stack: Stack = Vec::with_capacity(256);
    proof {
        assert(machine_of(stack@, memory@, claims@) =~= empty_machine()) by {
            assert(stack_view(stack@) =~= Seq::<Tagged>::empty());
            assert(memory_view(memory@) =~= Seq::<Tagged>::empty());
            assert(claims_view(claims@) =~= Seq::<Pat>::empty());
        }
    }
    match execute_instructions(gamma_buffer, &mut stack, &mut memory, &mut claims, ExecutionPhase::Gamma) {
        Ok(()) => {},
        Err(e) => return Err(e),
    }
    if stack.len() > 0 {
        return Err(CheckError::StackNotEmpty);
    }
    let ghost m1 = machine_of(stack@, memory@, claims@);
    stack.clear();
    assert(stack_view(stack@) =~= m1.stack);
    match execute_instructions(claims_buffer, &mut stack, &mut memory, &mut claims, ExecutionPhase::Claim) {
        Ok(()) => {},
        Err(e) => return Err(e),
    }
    if stack.len() > 0 {
        return Err(CheckError::StackNotEmpty);
    }
    let ghost m2 = machine_of(stack@, memory@, claims@);
    stack.clear();
    assert(stack_view(stack@) =~= m2.stack);
    match execute_instructions(proof_buffer, &mut stack, &mut memory, &mut claims, ExecutionPhase::Proof) {
        Ok(()) => {},
        Err(e) => return Err(e),
    }
    if claims.len() > 0 {
        return Err(CheckError::ClaimsLeft);
    }
    Ok(())
}

} // verus!
