//! What every run of the machine keeps: the tag discipline of the inference
//! rules, well-formed patterns everywhere, and a memory that only grows.
use crate::instruction::{decode, Instruction};
use crate::laws::{all_wf, lemma_inst_wf, lemma_ssubst_wf, wf_deep};
use crate::machine::{
    axiom_spec, collect, construct_spec, existence_pat, frame_pat, hole_phi, instantiate_spec,
    memory_spec, phi, pop_pattern_spec, pop_proved_spec, pop_spec, positive_phi, prefixpoint_pat,
    prop1_pat, prop2_pat, prop3_pat, publish_spec, quantifier_pat, rule_spec, run, step_spec,
    ExecutionPhase, Machine, Tagged,
};
use crate::pattern::{disjoint, is_e_fresh, Id, Pat};
use vstd::prelude::*;

verus! {

/// The pattern a stack item or memory slot carries.
pub open spec fn tagged_pat(t: Tagged) -> Pat {
    match t {
        Tagged::Pattern(p) => p,
        Tagged::Proved(p) => p,
    }
}

pub open spec fn terms_wf(s: Seq<Tagged>) -> bool {
    forall|i: int| 0 <= i < s.len() ==> wf_deep(tagged_pat(#[trigger] s[i]))
}

/// Every pattern on the stack, in memory and in the claim queue is
/// well-formed.
pub open spec fn machine_wf(m: Machine) -> bool {
    terms_wf(m.stack) && terms_wf(m.memory) && all_wf(m.claims)
}

proof fn lemma_push_wf(s: Seq<Tagged>, t: Tagged)
    requires
        terms_wf(s),
        wf_deep(tagged_pat(t)),
    ensures
        terms_wf(s.push(t)),
{
    assert forall|i: int| 0 <= i < s.push(t).len() implies wf_deep(tagged_pat(#[trigger] s.push(t)[i])) by {
        if i < s.len() {
            assert(s.push(t)[i] == s[i]);
        }
    }
}

proof fn lemma_pop_wf(s: Seq<Tagged>)
    requires
        terms_wf(s),
    ensures
        pop_spec(s) matches Ok((t, rest)) ==> wf_deep(tagged_pat(t)) && terms_wf(rest),
        pop_pattern_spec(s) matches Ok((p, rest)) ==> wf_deep(p) && terms_wf(rest),
        pop_proved_spec(s) matches Ok((p, rest)) ==> wf_deep(p) && terms_wf(rest),
{
    if s.len() > 0 {
        assert(wf_deep(tagged_pat(s[s.len() - 1])));
        assert forall|i: int| 0 <= i < s.drop_last().len() implies wf_deep(
            tagged_pat(#[trigger] s.drop_last()[i]),
        ) by {
            assert(s.drop_last()[i] == s[i]);
        }
    }
}

proof fn lemma_unconstrained_wf(id: Id)
    ensures
        wf_deep(phi(id)),
{
    assert(disjoint(seq![], seq![]));
}

proof fn lemma_axioms_wf(x: Id, y: Id, h: Id, p: Pat)
    ensures
        wf_deep(prop1_pat()),
        wf_deep(prop2_pat()),
        wf_deep(prop3_pat()),
        wf_deep(quantifier_pat(x, y)),
        wf_deep(existence_pat(x)),
        wf_deep(prefixpoint_pat(x)),
        wf_deep(p) ==> wf_deep(frame_pat(h, p)),
{
    lemma_unconstrained_wf(0);
    lemma_unconstrained_wf(1);
    lemma_unconstrained_wf(2);
    reveal_with_fuel(wf_deep, 4);
    assert(!phi(0)->e_fresh.contains(x));
    assert(!positive_phi(x)->s_fresh.contains(x));
    assert(positive_phi(x)->positive[0] == x);
    assert(positive_phi(x)->positive.contains(x));
    assert(disjoint(positive_phi(x)->e_fresh, positive_phi(x)->app_ctx_holes));
    assert(disjoint(hole_phi(h)->e_fresh, hole_phi(h)->app_ctx_holes));
    assert(!hole_phi(h)->e_fresh.contains(h));
}

proof fn lemma_construct_wf(i: Instruction, buf: Seq<u8>, pos: int, s: Seq<Tagged>)
    requires
        terms_wf(s),
    ensures
        construct_spec(i, buf, pos, s) matches Ok((_, s1)) ==> terms_wf(s1),
{
    reveal_with_fuel(wf_deep, 2);
    lemma_pop_wf(s);
    if let Ok((_, s1)) = pop_pattern_spec(s) {
        lemma_pop_wf(s1);
        if let Ok((_, s2)) = pop_pattern_spec(s1) {
            lemma_pop_wf(s2);
        }
    }
    match construct_spec(i, buf, pos, s) {
        Ok((_, s1)) => {
            let t = s1.last();
            assert(s1 == s1.drop_last().push(t));
            if let Some(id) = crate::machine::byte_at(buf, pos) {
                lemma_unconstrained_wf(id);
            }
            lemma_push_wf(s1.drop_last(), t);
        },
        Err(_) => {},
    }
}

proof fn lemma_axiom_wf(i: Instruction, buf: Seq<u8>, pos: int, s: Seq<Tagged>)
    requires
        terms_wf(s),
    ensures
        axiom_spec(i, buf, pos, s) matches Ok((_, s1)) ==> terms_wf(s1),
{
    if let Ok((_, s1)) = axiom_spec(i, buf, pos, s) {
        let x = buf[pos];
        let y = buf[pos + 1];
        lemma_axioms_wf(x, y, 0, Pat::Bot);
        lemma_push_wf(s, s1.last());
        assert(s1 == s.push(s1.last()));
    }
}

proof fn lemma_rule_wf(i: Instruction, buf: Seq<u8>, pos: int, s: Seq<Tagged>)
    requires
        terms_wf(s),
    ensures
        rule_spec(i, buf, pos, s) matches Ok((_, s1)) ==> terms_wf(s1),
{
    reveal_with_fuel(wf_deep, 3);
    lemma_pop_wf(s);
    if let Ok((p, s1)) = pop_proved_spec(s) {
        lemma_pop_wf(s1);
        if let Ok((q, s2)) = pop_proved_spec(s1) {
            lemma_pop_wf(s2);
        }
        if let Ok((q, s2)) = pop_pattern_spec(s1) {
            lemma_pop_wf(s2);
            lemma_ssubst_wf(p, buf[pos], q);
            if let Pat::Implies(l, r) = p {
                lemma_ssubst_wf(q, buf[pos], *r);
            }
        }
        if let Pat::Implies(l, r) = p {
            lemma_axioms_wf(0, 0, buf[pos], *l);
            lemma_axioms_wf(0, 0, buf[pos], *r);
        }
    }
    if let Ok((_, s1)) = rule_spec(i, buf, pos, s) {
        let t = s1.last();
        assert(s1 == s1.drop_last().push(t));
        lemma_push_wf(s1.drop_last(), t);
    }
}

proof fn lemma_collect_wf(buf: Seq<u8>, start: int, k: nat, s: Seq<Tagged>)
    requires
        terms_wf(s),
    ensures
        collect(buf, start, k, s) matches Ok((_, plugs, s1)) ==> all_wf(plugs) && terms_wf(s1),
    decreases k,
{
    if k > 0 {
        lemma_collect_wf(buf, start, (k - 1) as nat, s);
        if let Ok((_, plugs, s1)) = collect(buf, start, (k - 1) as nat, s) {
            lemma_pop_wf(s1);
            if let Ok((q, s2)) = pop_pattern_spec(s1) {
                assert forall|j: int| 0 <= j < plugs.push(q).len() implies wf_deep(
                    #[trigger] plugs.push(q)[j],
                ) by {
                    if j < plugs.len() {
                        assert(plugs.push(q)[j] == plugs[j]);
                    }
                }
            }
        }
    }
}

proof fn lemma_instantiate_wf(buf: Seq<u8>, pos: int, s: Seq<Tagged>)
    requires
        terms_wf(s),
    ensures
        instantiate_spec(buf, pos, s) matches Ok((_, s1)) ==> terms_wf(s1),
{
    lemma_pop_wf(s);
    if let Ok((t, s1)) = pop_spec(s) {
        let n = buf[pos];
        lemma_collect_wf(buf, pos + 1, n as nat, s1);
        if let Ok((ids, plugs, s2)) = collect(buf, pos + 1, n as nat, s1) {
            lemma_inst_wf(tagged_pat(t), ids, plugs);
            if let Ok((_, s3)) = instantiate_spec(buf, pos, s) {
                lemma_push_wf(s2, s3.last());
                assert(s3 == s2.push(s3.last()));
            }
        }
    }
}

proof fn lemma_memory_wf(i: Instruction, buf: Seq<u8>, pos: int, m: Machine)
    requires
        machine_wf(m),
    ensures
        memory_spec(i, buf, pos, m) matches Ok((_, m1)) ==> machine_wf(m1),
{
    lemma_pop_wf(m.stack);
    if m.stack.len() > 0 {
        lemma_push_wf(m.memory, m.stack.last());
    }
    if 0 <= pos < buf.len() && buf[pos] < m.memory.len() {
        lemma_push_wf(m.stack, m.memory[buf[pos] as int]);
    }
}

proof fn lemma_publish_wf(m: Machine, phase: ExecutionPhase)
    requires
        machine_wf(m),
    ensures
        publish_spec(m, phase) matches Ok(m1) ==> machine_wf(m1),
{
    lemma_pop_wf(m.stack);
    if let Ok((p, _)) = pop_pattern_spec(m.stack) {
        lemma_push_wf(m.memory, Tagged::Proved(p));
        assert forall|j: int| 0 <= j < m.claims.push(p).len() implies wf_deep(
            #[trigger] m.claims.push(p)[j],
        ) by {
            if j < m.claims.len() {
                assert(m.claims.push(p)[j] == m.claims[j]);
            }
        }
    }
    if m.claims.len() > 0 {
        assert forall|j: int| 0 <= j < m.claims.drop_last().len() implies wf_deep(
            #[trigger] m.claims.drop_last()[j],
        ) by {
            assert(m.claims.drop_last()[j] == m.claims[j]);
        }
    }
}

/// Each instruction keeps every pattern of the machine well-formed: no
/// meta-variable declares a hole fresh, every `mu` body is positive in its
/// binder, and no pending substitution is redundant.
pub proof fn lemma_step_wf(
    i: Instruction,
    buf: Seq<u8>,
    pos: int,
    m: Machine,
    phase: ExecutionPhase,
)
    requires
        machine_wf(m),
    ensures
        step_spec(i, buf, pos, m, phase) matches Ok((_, m1)) ==> machine_wf(m1),
{
    lemma_construct_wf(i, buf, pos, m.stack);
    lemma_axiom_wf(i, buf, pos, m.stack);
    lemma_rule_wf(i, buf, pos, m.stack);
    lemma_instantiate_wf(buf, pos, m.stack);
    lemma_memory_wf(i, buf, pos, m);
    lemma_publish_wf(m, phase);
}

/// A run that starts from well-formed patterns ends with well-formed
/// patterns, so every pattern that any run builds, loads or publishes is
/// well-formed.
pub proof fn lemma_run_wf(buf: Seq<u8>, pos: int, m: Machine, phase: ExecutionPhase)
    requires
        machine_wf(m),
    ensures
        run(buf, pos, m, phase) matches Ok(m1) ==> machine_wf(m1),
    decreases buf.len() - pos,
{
    if 0 <= pos < buf.len() {
        if let Some(i) = decode(buf[pos]) {
            lemma_step_wf(i, buf, pos + 1, m, phase);
            if let Ok((next, m1)) = step_spec(i, buf, pos + 1, m, phase) {
                if next > pos {
                    lemma_run_wf(buf, next, m1, phase);
                }
            }
        }
    }
}

/// The machine every check starts from holds only well-formed patterns.
pub proof fn lemma_empty_machine_wf()
    ensures
        machine_wf(crate::machine::empty_machine()),
{
}

/// An inference rule runs only on premises with the tags it expects: a
/// proved implication on top for every rule, a second proved premise below
/// it for modus ponens, and a raw pattern below it for substitution and
/// Knaster-Tarski.
pub proof fn lemma_tag_discipline(
    i: Instruction,
    buf: Seq<u8>,
    pos: int,
    m: Machine,
    phase: ExecutionPhase,
)
    requires
        step_spec(i, buf, pos, m, phase) is Ok,
    ensures
        i is ModusPonens || i is Generalization || i is Framing || i is Substitution
            || i is KnasterTarski ==> m.stack.len() >= 1 && m.stack.last() is Proved,
        i is ModusPonens ==> m.stack.len() >= 2 && m.stack[m.stack.len() - 2] is Proved,
        i is Substitution || i is KnasterTarski ==> m.stack.len() >= 2 && m.stack[m.stack.len()
            - 2] is Pattern,
{
    if m.stack.len() >= 2 {
        assert(m.stack.drop_last().last() == m.stack[m.stack.len() - 2]);
    }
}

/// A theorem derived by generalization over `x` has a conclusion in which
/// `x` is fresh.
pub proof fn lemma_generalization_fresh(buf: Seq<u8>, pos: int, m: Machine, phase: ExecutionPhase)
    ensures
        step_spec(Instruction::Generalization, buf, pos, m, phase) matches Ok((_, m1)) ==> {
            &&& m1.stack.last() matches Tagged::Proved(Pat::Implies(l, r))
            &&& *l == Pat::Exists(buf[pos], l->Exists_1)
            &&& is_e_fresh(*r, buf[pos])
        },
{
}

/// Memory only grows: no instruction rewrites a slot once it is filled.
pub proof fn lemma_step_memory_grows(
    i: Instruction,
    buf: Seq<u8>,
    pos: int,
    m: Machine,
    phase: ExecutionPhase,
)
    ensures
        step_spec(i, buf, pos, m, phase) matches Ok((_, m1)) ==> m.memory.len() <= m1.memory.len()
            && m1.memory.subrange(0, m.memory.len() as int) == m.memory,
{
    if let Ok((_, m1)) = step_spec(i, buf, pos, m, phase) {
        if m1.memory.len() > m.memory.len() {
            assert(m1.memory.subrange(0, m.memory.len() as int) =~= m.memory);
        } else {
            assert(m1.memory.subrange(0, m.memory.len() as int) =~= m.memory);
        }
    }
}

/// Over a whole run, memory only grows.
pub proof fn lemma_run_memory_grows(buf: Seq<u8>, pos: int, m: Machine, phase: ExecutionPhase)
    ensures
        run(buf, pos, m, phase) matches Ok(m1) ==> m.memory.len() <= m1.memory.len()
            && m1.memory.subrange(0, m.memory.len() as int) == m.memory,
    decreases buf.len() - pos,
{
    if 0 <= pos < buf.len() {
        if let Some(i) = decode(buf[pos]) {
            lemma_step_memory_grows(i, buf, pos + 1, m, phase);
            if let Ok((next, m1)) = step_spec(i, buf, pos + 1, m, phase) {
                if next > pos {
                    lemma_run_memory_grows(buf, next, m1, phase);
                    if let Ok(m2) = run(buf, next, m1, phase) {
                        assert(m2.memory.subrange(0, m.memory.len() as int) =~= m1.memory.subrange(
                            0,
                            m.memory.len() as int,
                        ));
                    }
                }
            }
        }
    } else {
        assert(m.memory.subrange(0, m.memory.len() as int) =~= m.memory);
    }
}

} // verus!
