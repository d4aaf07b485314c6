//! Laws of substitution and instantiation, stated over the models and
//! proved from the definitions that the executable functions implement.
use crate::error::CheckError;
use crate::pattern::{
    is_e_fresh, is_meta_shaped, is_negative, is_positive, is_redundant_e, is_redundant_s,
    is_s_fresh, is_well_formed, Id, Pat,
};
use crate::subst::{
    esubst_of, first_pos, holes_check, inst, is_first_pos, occurs, plug_check, ssubst_of,
};
use vstd::prelude::*;

verus! {

/// Substituting a variable for itself changes nothing.
pub proof fn lemma_subst_identity(p: Pat, x: Id)
    ensures
        esubst_of(p, x, Pat::EVar(x)) == Ok::<Pat, CheckError>(p),
        ssubst_of(p, x, Pat::SVar(x)) == Ok::<Pat, CheckError>(p),
{
}

/// Substituting for a variable that does not occur free changes nothing.
pub proof fn lemma_subst_fresh_noop(p: Pat, x: Id, q: Pat)
    ensures
        is_e_fresh(p, x) ==> esubst_of(p, x, q) == Ok::<Pat, CheckError>(p),
        is_s_fresh(p, x) ==> ssubst_of(p, x, q) == Ok::<Pat, CheckError>(p),
{
}

/// Over a meta-variable a substitution that is not redundant stays pending.
pub proof fn lemma_subst_metavar_wraps(p: Pat, x: Id, q: Pat)
    requires
        p is MetaVar,
    ensures
        !is_redundant_e(p, x, q) ==> esubst_of(p, x, q) == Ok::<Pat, CheckError>(
            Pat::ESubst(Box::new(p), x, Box::new(q)),
        ),
        !is_redundant_s(p, x, q) ==> ssubst_of(p, x, q) == Ok::<Pat, CheckError>(
            Pat::SSubst(Box::new(p), x, Box::new(q)),
        ),
{
}

/// Substitution under a binder is allowed when the plug does not mention the
/// bound variable, and fails when it would capture it.
pub proof fn lemma_capture_avoidance(x: Id, y: Id)
    requires
        x != y,
    ensures
        esubst_of(Pat::Exists(y, Box::new(Pat::EVar(y))), y, Pat::EVar(x)) == Ok::<Pat, CheckError>(
            Pat::Exists(y, Box::new(Pat::EVar(y))),
        ),
        esubst_of(Pat::Exists(y, Box::new(Pat::EVar(x))), x, Pat::EVar(y)) == Err::<Pat, CheckError>(
            CheckError::Capture,
        ),
{
    let p = Pat::Exists(y, Box::new(Pat::EVar(x)));
    assert(!is_e_fresh(Pat::EVar(x), x));
    assert(!is_e_fresh(p, x));
    assert(!is_e_fresh(Pat::EVar(y), y));
}

/// Every meta-variable of `p` named `id` is `mv` itself, and the pending
/// substitutions of `p` are well-formed.
pub open spec fn uses_only(p: Pat, id: Id, mv: Pat) -> bool
    decreases p,
{
    match p {
        Pat::MetaVar { id: i, .. } => i == id ==> p == mv,
        Pat::Implies(l, r) => uses_only(*l, id, mv) && uses_only(*r, id, mv),
        Pat::App(l, r) => uses_only(*l, id, mv) && uses_only(*r, id, mv),
        Pat::Exists(_, s) => uses_only(*s, id, mv),
        Pat::Mu(_, s) => uses_only(*s, id, mv),
        Pat::ESubst(q, _, r) => is_well_formed(p) && uses_only(*q, id, mv) && uses_only(*r, id, mv),
        Pat::SSubst(q, _, r) => is_well_formed(p) && uses_only(*q, id, mv) && uses_only(*r, id, mv),
        _ => true,
    }
}

/// A meta-variable meets the hole constraints `holes[i..]` that it lists.
proof fn lemma_metavar_holes(mv: Pat, holes: Seq<Id>, i: int)
    requires
        mv matches Pat::MetaVar { app_ctx_holes, .. } && app_ctx_holes == holes,
        0 <= i,
    ensures
        holes_check(mv, holes, i) == Ok::<(), CheckError>(()),
    decreases holes.len() - i,
{
    if i < holes.len() {
        assert(holes.contains(holes[i]));
        lemma_metavar_holes(mv, holes, i + 1);
    }
}

/// A meta-variable meets its own constraints.
pub proof fn lemma_metavar_fits_itself(mv: Pat)
    requires
        mv is MetaVar,
    ensures
        plug_check(mv, mv) == Ok::<Pat, CheckError>(mv),
{
    match mv {
        Pat::MetaVar { e_fresh, s_fresh, positive, negative, app_ctx_holes, .. } => {
            assert forall|i: int| 0 <= i < e_fresh.len() implies is_e_fresh(mv, #[trigger] e_fresh[i]) by {
                assert(e_fresh.contains(e_fresh[i]));
            }
            assert forall|i: int| 0 <= i < s_fresh.len() implies is_s_fresh(mv, #[trigger] s_fresh[i]) by {
                assert(s_fresh.contains(s_fresh[i]));
            }
            assert forall|i: int| 0 <= i < positive.len() implies is_positive(mv, #[trigger] positive[i]) by {
                assert(positive.contains(positive[i]));
            }
            assert forall|i: int| 0 <= i < negative.len() implies is_negative(mv, #[trigger] negative[i]) by {
                assert(negative.contains(negative[i]));
            }
            lemma_metavar_holes(mv, app_ctx_holes, 0);
        },
        _ => {},
    }
}

/// Instantiating a meta-variable by itself gives back the pattern, where the
/// pattern's pending substitutions are well-formed.
pub proof fn lemma_instantiate_identity(p: Pat, id: Id, mv: Pat)
    requires
        mv matches Pat::MetaVar { id: i, .. } && i == id,
        uses_only(p, id, mv),
    ensures
        inst(p, seq![id], seq![mv]) == Ok::<Pat, CheckError>(p),
    decreases p,
{
    let vars = seq![id];
    let plugs = seq![mv];
    if occurs(p, vars) {
        match p {
            Pat::MetaVar { id: i, .. } => {
                assert(vars.contains(i));
                assert(vars[0] == i);
                assert(is_first_pos(vars, id, 0));
                assert(first_pos(vars, id) == 0);
                lemma_metavar_fits_itself(mv);
            },
            Pat::Implies(l, r) => {
                lemma_instantiate_identity(*l, id, mv);
                lemma_instantiate_identity(*r, id, mv);
            },
            Pat::App(l, r) => {
                lemma_instantiate_identity(*l, id, mv);
                lemma_instantiate_identity(*r, id, mv);
            },
            Pat::Exists(_, s) => {
                lemma_instantiate_identity(*s, id, mv);
            },
            Pat::Mu(_, s) => {
                lemma_instantiate_identity(*s, id, mv);
            },
            Pat::ESubst(q, x, r) => {
                lemma_instantiate_identity(*q, id, mv);
                lemma_instantiate_identity(*r, id, mv);
                assert(is_meta_shaped(*q));
            },
            Pat::SSubst(q, x, r) => {
                lemma_instantiate_identity(*q, id, mv);
                lemma_instantiate_identity(*r, id, mv);
                assert(is_meta_shaped(*q));
            },
            _ => {},
        }
    }
}

/// Every node of `p` is well-formed: meta-variables have no hole that they
/// also declare fresh, every `mu` body is positive in its binder, and every
/// pending substitution is non-redundant and floats over a meta-variable or
/// another pending substitution.
pub open spec fn wf_deep(p: Pat) -> bool
    decreases p,
{
    is_well_formed(p) && match p {
        Pat::Implies(l, r) => wf_deep(*l) && wf_deep(*r),
        Pat::App(l, r) => wf_deep(*l) && wf_deep(*r),
        Pat::Exists(_, s) => wf_deep(*s),
        Pat::Mu(_, s) => wf_deep(*s),
        Pat::ESubst(q, _, r) => wf_deep(*q) && wf_deep(*r),
        Pat::SSubst(q, _, r) => wf_deep(*q) && wf_deep(*r),
        _ => true,
    }
}

/// A set variable that does not occur is both positive and negative.
pub proof fn lemma_s_fresh_polar(p: Pat, v: Id)
    requires
        is_s_fresh(p, v),
    ensures
        is_positive(p, v),
        is_negative(p, v),
    decreases p,
{
    match p {
        Pat::Implies(l, r) => {
            lemma_s_fresh_polar(*l, v);
            lemma_s_fresh_polar(*r, v);
        },
        Pat::App(l, r) => {
            lemma_s_fresh_polar(*l, v);
            lemma_s_fresh_polar(*r, v);
        },
        Pat::Exists(_, q) => {
            lemma_s_fresh_polar(*q, v);
        },
        Pat::Mu(y, q) => {
            if y != v {
                lemma_s_fresh_polar(*q, v);
            }
        },
        Pat::ESubst(q, _, _) => {
            lemma_s_fresh_polar(*q, v);
        },
        Pat::SSubst(q, y, _) => {
            if y != v {
                lemma_s_fresh_polar(*q, v);
            }
        },
        _ => {},
    }
}

/// Carrying out a pending element substitution keeps whatever polarity and
/// freshness the pending form had.
pub proof fn lemma_esubst_polar(a: Pat, x: Id, b: Pat, v: Id)
    ensures
        esubst_of(a, x, b) matches Ok(r) ==> {
            let pending = Pat::ESubst(Box::new(a), x, Box::new(b));
            &&& is_positive(pending, v) ==> is_positive(r, v)
            &&& is_negative(pending, v) ==> is_negative(r, v)
            &&& is_s_fresh(pending, v) ==> is_s_fresh(r, v)
        },
    decreases a,
{
    reveal_with_fuel(is_positive, 2);
    reveal_with_fuel(is_negative, 2);
    reveal_with_fuel(is_s_fresh, 2);
    let pending = Pat::ESubst(Box::new(a), x, Box::new(b));
    if is_redundant_e(a, x, b) {
        assert(esubst_of(a, x, b) == Ok::<Pat, CheckError>(a));
    } else {
        match a {
            Pat::EVar(_) => {
                if is_s_fresh(b, v) {
                    lemma_s_fresh_polar(b, v);
                }
                assert(esubst_of(a, x, b) == Ok::<Pat, CheckError>(b));
            },
            Pat::Implies(l, r) => {
                lemma_esubst_polar(*l, x, b, v);
                lemma_esubst_polar(*r, x, b, v);
                if let (Ok(l1), Ok(r1)) = (esubst_of(*l, x, b), esubst_of(*r, x, b)) {
                    let res = Pat::Implies(Box::new(l1), Box::new(r1));
                    assert(esubst_of(a, x, b) == Ok::<Pat, CheckError>(res));
                    assert(is_positive(a, v) == (is_negative(*l, v) && is_positive(*r, v)));
                    assert(is_negative(a, v) == (is_positive(*l, v) && is_negative(*r, v)));
                    assert(is_positive(pending, v) ==> is_positive(res, v));
                    assert(is_negative(pending, v) ==> is_negative(res, v));
                    assert(is_s_fresh(pending, v) ==> is_s_fresh(res, v));
                }
            },
            Pat::App(l, r) => {
                lemma_esubst_polar(*l, x, b, v);
                lemma_esubst_polar(*r, x, b, v);
                if let (Ok(l1), Ok(r1)) = (esubst_of(*l, x, b), esubst_of(*r, x, b)) {
                    let res = Pat::App(Box::new(l1), Box::new(r1));
                    assert(esubst_of(a, x, b) == Ok::<Pat, CheckError>(res));
                    assert(is_positive(pending, v) ==> is_positive(res, v));
                    assert(is_negative(pending, v) ==> is_negative(res, v));
                    assert(is_s_fresh(pending, v) ==> is_s_fresh(res, v));
                }
            },
            Pat::Exists(y, q) => {
                lemma_esubst_polar(*q, x, b, v);
                if let Ok(q1) = esubst_of(*q, x, b) {
                    if y != x && is_e_fresh(b, y) {
                        let res = Pat::Exists(y, Box::new(q1));
                        assert(esubst_of(a, x, b) == Ok::<Pat, CheckError>(res));
                        assert(is_positive(pending, v) ==> is_positive(res, v));
                    }
                }
            },
            Pat::Mu(y, q) => {
                lemma_esubst_polar(*q, x, b, v);
                if let Ok(q1) = esubst_of(*q, x, b) {
                    if is_s_fresh(b, y) {
                        let res = Pat::Mu(y, Box::new(q1));
                        assert(esubst_of(a, x, b) == Ok::<Pat, CheckError>(res));
                        assert(is_positive(pending, v) ==> is_positive(res, v));
                    }
                }
            },
            _ => {
                assert(esubst_of(a, x, b) == Ok::<Pat, CheckError>(pending));
            },
        }
    }
}

/// Carrying out a pending set substitution keeps whatever polarity and
/// freshness the pending form had.
pub proof fn lemma_ssubst_polar(a: Pat, x: Id, b: Pat, v: Id)
    ensures
        ssubst_of(a, x, b) matches Ok(r) ==> {
            let pending = Pat::SSubst(Box::new(a), x, Box::new(b));
            &&& is_positive(pending, v) ==> is_positive(r, v)
            &&& is_negative(pending, v) ==> is_negative(r, v)
            &&& is_s_fresh(pending, v) ==> is_s_fresh(r, v)
        },
    decreases a,
{
    reveal_with_fuel(is_positive, 2);
    reveal_with_fuel(is_negative, 2);
    reveal_with_fuel(is_s_fresh, 2);
    if is_redundant_s(a, x, b) {
        if is_s_fresh(a, x) {
            lemma_s_fresh_polar(a, x);
        }
    } else {
        match a {
            Pat::SVar(_) => {
                if is_s_fresh(b, v) {
                    lemma_s_fresh_polar(b, v);
                }
            },
            Pat::Implies(l, r) => {
                lemma_ssubst_polar(*l, x, b, v);
                lemma_ssubst_polar(*r, x, b, v);
            },
            Pat::App(l, r) => {
                lemma_ssubst_polar(*l, x, b, v);
                lemma_ssubst_polar(*r, x, b, v);
            },
            Pat::Exists(_, q) => {
                lemma_ssubst_polar(*q, x, b, v);
            },
            Pat::Mu(y, q) => {
                if y != x {
                    lemma_ssubst_polar(*q, x, b, v);
                }
            },
            _ => {},
        }
    }
}

/// Element substitution keeps patterns well-formed.
pub proof fn lemma_esubst_wf(a: Pat, x: Id, b: Pat)
    requires
        wf_deep(a),
        wf_deep(b),
    ensures
        esubst_of(a, x, b) matches Ok(r) ==> wf_deep(r),
    decreases a,
{
    reveal_with_fuel(is_positive, 2);
    reveal_with_fuel(is_negative, 2);
    reveal_with_fuel(is_s_fresh, 2);
    if !is_redundant_e(a, x, b) {
        match a {
            Pat::Implies(l, r) => {
                lemma_esubst_wf(*l, x, b);
                lemma_esubst_wf(*r, x, b);
            },
            Pat::App(l, r) => {
                lemma_esubst_wf(*l, x, b);
                lemma_esubst_wf(*r, x, b);
            },
            Pat::Exists(_, q) => {
                lemma_esubst_wf(*q, x, b);
            },
            Pat::Mu(y, q) => {
                lemma_esubst_wf(*q, x, b);
                lemma_esubst_polar(*q, x, b, y);
            },
            _ => {},
        }
    }
}

/// Set substitution keeps patterns well-formed.
pub proof fn lemma_ssubst_wf(a: Pat, x: Id, b: Pat)
    requires
        wf_deep(a),
        wf_deep(b),
    ensures
        ssubst_of(a, x, b) matches Ok(r) ==> wf_deep(r),
    decreases a,
{
    reveal_with_fuel(is_positive, 2);
    reveal_with_fuel(is_negative, 2);
    reveal_with_fuel(is_s_fresh, 2);
    if !is_redundant_s(a, x, b) {
        match a {
            Pat::Implies(l, r) => {
                lemma_ssubst_wf(*l, x, b);
                lemma_ssubst_wf(*r, x, b);
            },
            Pat::App(l, r) => {
                lemma_ssubst_wf(*l, x, b);
                lemma_ssubst_wf(*r, x, b);
            },
            Pat::Exists(_, q) => {
                lemma_ssubst_wf(*q, x, b);
            },
            Pat::Mu(y, q) => {
                if y != x {
                    lemma_ssubst_wf(*q, x, b);
                    lemma_ssubst_polar(*q, x, b, y);
                }
            },
            _ => {},
        }
    }
}

/// Instantiation keeps every polarity and freshness fact of the pattern:
/// each plug meets the constraints of the meta-variable it replaces.
pub proof fn lemma_inst_polar(p: Pat, vars: Seq<Id>, plugs: Seq<Pat>, v: Id)
    ensures
        inst(p, vars, plugs) matches Ok(r) ==> {
            &&& is_positive(p, v) ==> is_positive(r, v)
            &&& is_negative(p, v) ==> is_negative(r, v)
            &&& is_s_fresh(p, v) ==> is_s_fresh(r, v)
        },
    decreases p,
{
    reveal_with_fuel(is_positive, 2);
    reveal_with_fuel(is_negative, 2);
    reveal_with_fuel(is_s_fresh, 2);
    if occurs(p, vars) {
        match p {
            Pat::MetaVar { s_fresh, positive, negative, .. } => {
                if inst(p, vars, plugs) is Ok {
                    let plug = plugs[first_pos(vars, p->id)];
                    if s_fresh.contains(v) {
                        let i = choose|i: int| 0 <= i < s_fresh.len() && s_fresh[i] == v;
                        assert(is_s_fresh(plug, s_fresh[i]));
                        lemma_s_fresh_polar(plug, v);
                    }
                    if positive.contains(v) {
                        let i = choose|i: int| 0 <= i < positive.len() && positive[i] == v;
                        assert(is_positive(plug, positive[i]));
                    }
                    if negative.contains(v) {
                        let i = choose|i: int| 0 <= i < negative.len() && negative[i] == v;
                        assert(is_negative(plug, negative[i]));
                    }
                }
            },
            Pat::Implies(l, r) => {
                lemma_inst_polar(*l, vars, plugs, v);
                lemma_inst_polar(*r, vars, plugs, v);
            },
            Pat::App(l, r) => {
                lemma_inst_polar(*l, vars, plugs, v);
                lemma_inst_polar(*r, vars, plugs, v);
            },
            Pat::Exists(_, s) => {
                lemma_inst_polar(*s, vars, plugs, v);
            },
            Pat::Mu(_, s) => {
                lemma_inst_polar(*s, vars, plugs, v);
            },
            Pat::ESubst(q, x, r) => {
                lemma_inst_polar(*q, vars, plugs, v);
                lemma_inst_polar(*r, vars, plugs, v);
                if let (Ok(a), Ok(b)) = (inst(*q, vars, plugs), inst(*r, vars, plugs)) {
                    lemma_esubst_polar(a, x, b, v);
                }
            },
            Pat::SSubst(q, x, r) => {
                lemma_inst_polar(*q, vars, plugs, v);
                lemma_inst_polar(*q, vars, plugs, x);
                lemma_inst_polar(*r, vars, plugs, v);
                if let (Ok(a), Ok(b)) = (inst(*q, vars, plugs), inst(*r, vars, plugs)) {
                    lemma_ssubst_polar(a, x, b, v);
                }
            },
            _ => {},
        }
    }
}

/// An id listed in `vars` has a first position there.
pub proof fn lemma_first_pos_exists(vars: Seq<Id>, id: Id)
    requires
        vars.contains(id),
    ensures
        is_first_pos(vars, id, first_pos(vars, id)),
    decreases vars.len(),
{
    if vars[0] == id {
        assert(is_first_pos(vars, id, 0));
    } else {
        let rest = vars.drop_first();
        let i = choose|i: int| 0 <= i < vars.len() && vars[i] == id;
        assert(rest[i - 1] == id);
        lemma_first_pos_exists(rest, id);
        let k = first_pos(rest, id);
        assert forall|j: int| 0 <= j < k + 1 implies vars[j] != id by {
            if j > 0 {
                assert(vars[j] == rest[j - 1]);
            }
        }
        assert(is_first_pos(vars, id, k + 1));
    }
}

/// Every plug is well-formed.
pub open spec fn all_wf(plugs: Seq<Pat>) -> bool {
    forall|i: int| 0 <= i < plugs.len() ==> wf_deep(#[trigger] plugs[i])
}

/// Instantiation with well-formed plugs keeps patterns well-formed.
pub proof fn lemma_inst_wf(p: Pat, vars: Seq<Id>, plugs: Seq<Pat>)
    requires
        wf_deep(p),
        all_wf(plugs),
    ensures
        inst(p, vars, plugs) matches Ok(r) ==> wf_deep(r),
    decreases p,
{
    if occurs(p, vars) {
        match p {
            Pat::MetaVar { .. } => {
                let k = first_pos(vars, p->id);
                lemma_first_pos_exists(vars, p->id);
                if 0 <= k < plugs.len() {
                    assert(wf_deep(plugs[k]));
                    assert(plug_check(plugs[k], p) matches Ok(r) ==> r == plugs[k]);
                }
            },
            Pat::Implies(l, r) => {
                lemma_inst_wf(*l, vars, plugs);
                lemma_inst_wf(*r, vars, plugs);
                if let (Ok(a), Ok(b)) = (inst(*l, vars, plugs), inst(*r, vars, plugs)) {
                    assert(inst(p, vars, plugs) == Ok::<Pat, CheckError>(
                        Pat::Implies(Box::new(a), Box::new(b)),
                    ));
                    assert(wf_deep(Pat::Implies(Box::new(a), Box::new(b))));
                }
            },
            Pat::App(l, r) => {
                lemma_inst_wf(*l, vars, plugs);
                lemma_inst_wf(*r, vars, plugs);
                if let (Ok(a), Ok(b)) = (inst(*l, vars, plugs), inst(*r, vars, plugs)) {
                    assert(inst(p, vars, plugs) == Ok::<Pat, CheckError>(
                        Pat::App(Box::new(a), Box::new(b)),
                    ));
                    assert(wf_deep(Pat::App(Box::new(a), Box::new(b))));
                }
            },
            Pat::Exists(y, s) => {
                lemma_inst_wf(*s, vars, plugs);
                if let Ok(a) = inst(*s, vars, plugs) {
                    assert(inst(p, vars, plugs) == Ok::<Pat, CheckError>(Pat::Exists(y, Box::new(a))));
                    assert(wf_deep(Pat::Exists(y, Box::new(a))));
                }
            },
            Pat::Mu(y, s) => {
                lemma_inst_wf(*s, vars, plugs);
                lemma_inst_polar(*s, vars, plugs, y);
                if let Ok(a) = inst(*s, vars, plugs) {
                    assert(inst(p, vars, plugs) == Ok::<Pat, CheckError>(Pat::Mu(y, Box::new(a))));
                    assert(is_positive(*s, y));
                    assert(is_positive(a, y));
                    assert(wf_deep(Pat::Mu(y, Box::new(a))));
                }
            },
            Pat::ESubst(q, x, r) => {
                lemma_inst_wf(*q, vars, plugs);
                lemma_inst_wf(*r, vars, plugs);
                if let (Ok(a), Ok(b)) = (inst(*q, vars, plugs), inst(*r, vars, plugs)) {
                    lemma_esubst_wf(a, x, b);
                    assert(inst(p, vars, plugs) == esubst_of(a, x, b));
                }
            },
            Pat::SSubst(q, x, r) => {
                lemma_inst_wf(*q, vars, plugs);
                lemma_inst_wf(*r, vars, plugs);
                if let (Ok(a), Ok(b)) = (inst(*q, vars, plugs), inst(*r, vars, plugs)) {
                    lemma_ssubst_wf(a, x, b);
                    assert(inst(p, vars, plugs) == ssubst_of(a, x, b));
                }
            },
            _ => {},
        }
    }
}

} // verus!
