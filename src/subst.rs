//! Capture-avoiding substitution of element and set variables, and
//! simultaneous instantiation of meta-variables.
use crate::error::CheckError;
use crate::pattern::{
    app, esubst, exists_pattern, hole_supported, is_app_ctx_hole, is_e_fresh, is_negative,
    is_positive, is_redundant_e, is_redundant_s, is_s_fresh, mu, ssubst, Id, Pat, Pattern, Ptr,
};
use vstd::prelude::*;

verus! {

/// The model of a computed pattern.
pub open spec fn lift(r: Result<Ptr<Pattern>, CheckError>) -> Result<Pat, CheckError> {
    match r {
        Ok(p) => Ok(p@),
        Err(e) => Err(e),
    }
}

/// `p[q/x]`, or the capture that forbids it.
pub open spec fn esubst_of(p: Pat, x: Id, q: Pat) -> Result<Pat, CheckError>
    decreases p,
{
    if is_redundant_e(p, x, q) {
        Ok(p)
    } else {
        match p {
            Pat::EVar(y) => if y == x {
                Ok(q)
            } else {
                Ok(p)
            },
            Pat::Implies(l, r) => match esubst_of(*l, x, q) {
                Ok(a) => match esubst_of(*r, x, q) {
                    Ok(b) => Ok(Pat::Implies(Box::new(a), Box::new(b))),
                    Err(e) => Err(e),
                },
                Err(e) => Err(e),
            },
            Pat::App(l, r) => match esubst_of(*l, x, q) {
                Ok(a) => match esubst_of(*r, x, q) {
                    Ok(b) => Ok(Pat::App(Box::new(a), Box::new(b))),
                    Err(e) => Err(e),
                },
                Err(e) => Err(e),
            },
            Pat::Exists(y, s) => if y == x {
                Ok(p)
            } else if !is_e_fresh(q, y) {
                Err(CheckError::Capture)
            } else {
                match esubst_of(*s, x, q) {
                    Ok(a) => Ok(Pat::Exists(y, Box::new(a))),
                    Err(e) => Err(e),
                }
            },
            Pat::Mu(y, s) => if !is_s_fresh(q, y) {
                Err(CheckError::Capture)
            } else {
                match esubst_of(*s, x, q) {
                    Ok(a) => Ok(Pat::Mu(y, Box::new(a))),
                    Err(e) => Err(e),
                }
            },
            Pat::MetaVar { .. } | Pat::ESubst(..) | Pat::SSubst(..) => Ok(
                Pat::ESubst(Box::new(p), x, Box::new(q)),
            ),
            _ => Ok(p),
        }
    }
}

/// `p[q/X]`, or the capture that forbids it.
pub open spec fn ssubst_of(p: Pat, x: Id, q: Pat) -> Result<Pat, CheckError>
    decreases p,
{
    if is_redundant_s(p, x, q) {
        Ok(p)
    } else {
        match p {
            Pat::SVar(y) => if y == x {
                Ok(q)
            } else {
                Ok(p)
            },
            Pat::Implies(l, r) => match ssubst_of(*l, x, q) {
                Ok(a) => match ssubst_of(*r, x, q) {
                    Ok(b) => Ok(Pat::Implies(Box::new(a), Box::new(b))),
                    Err(e) => Err(e),
                },
                Err(e) => Err(e),
            },
            Pat::App(l, r) => match ssubst_of(*l, x, q) {
                Ok(a) => match ssubst_of(*r, x, q) {
                    Ok(b) => Ok(Pat::App(Box::new(a), Box::new(b))),
                    Err(e) => Err(e),
                },
                Err(e) => Err(e),
            },
            Pat::Exists(y, s) => if !is_e_fresh(q, y) {
                Err(CheckError::Capture)
            } else {
                match ssubst_of(*s, x, q) {
                    Ok(a) => Ok(Pat::Exists(y, Box::new(a))),
                    Err(e) => Err(e),
                }
            },
            Pat::Mu(y, s) => if y == x {
                Ok(p)
            } else if !is_s_fresh(q, y) {
                Err(CheckError::Capture)
            } else {
                match ssubst_of(*s, x, q) {
                    Ok(a) => Ok(Pat::Mu(y, Box::new(a))),
                    Err(e) => Err(e),
                }
            },
            Pat::MetaVar { .. } | Pat::ESubst(..) | Pat::SSubst(..) => Ok(
                Pat::SSubst(Box::new(p), x, Box::new(q)),
            ),
            _ => Ok(p),
        }
    }
}

/// Applies the substitution `pattern[plug/evar_id]`, failing where a binder
/// of `pattern` would capture a free variable of `plug`. Over a meta-variable
/// or a pending substitution the substitution stays pending.
pub fn apply_esubst(pattern: Ptr<Pattern>, evar_id: Id, plug: Ptr<Pattern>) -> (r: Result<
    Ptr<Pattern>,
    CheckError,
>)
    ensures
        lift(r) == esubst_of(pattern@, evar_id, plug@),
    decreases pattern@,
{
    if pattern.get().is_redundant_esubst(evar_id, plug.clone()) {
        return Ok(pattern);
    }
    match pattern.get() {
        Pattern::EVar(e) => {
            if *e == evar_id {
                Ok(plug)
            } else {
                Ok(pattern.clone())
            }
        },
        Pattern::Implies { left, right } => {
            let l = match apply_esubst(left.clone(), evar_id, plug.clone()) {
                Ok(l) => l,
                Err(e) => return Err(e),
            };
            let r = match apply_esubst(right.clone(), evar_id, plug) {
                Ok(r) => r,
                Err(e) => return Err(e),
            };
            Ok(crate::pattern::implies(l, r))
        },
        Pattern::App { left, right } => {
            let l = match apply_esubst(left.clone(), evar_id, plug.clone()) {
                Ok(l) => l,
                Err(e) => return Err(e),
            };
            let r = match apply_esubst(right.clone(), evar_id, plug) {
                Ok(r) => r,
                Err(e) => return Err(e),
            };
            Ok(app(l, r))
        },
        Pattern::Exists { var, subpattern } => {
            if *var == evar_id {
                return Ok(pattern.clone());
            }
            if !plug.get().e_fresh(*var) {
                return Err(CheckError::Capture);
            }
            match apply_esubst(subpattern.clone(), evar_id, plug) {
                Ok(s) => Ok(exists_pattern(*var, s)),
                Err(e) => Err(e),
            }
        },
        Pattern::Mu { var, subpattern } => {
            if !plug.get().s_fresh(*var) {
                return Err(CheckError::Capture);
            }
            match apply_esubst(subpattern.clone(), evar_id, plug) {
                Ok(s) => Ok(mu(*var, s)),
                Err(e) => Err(e),
            }
        },
        Pattern::MetaVar { .. } | Pattern::ESubst { .. } | Pattern::SSubst { .. } => Ok(
            esubst(pattern.clone(), evar_id, plug),
        ),
        _ => Ok(pattern.clone()),
    }
}

/// Applies the substitution `pattern[plug/svar_id]`, failing where a binder
/// of `pattern` would capture a free variable of `plug`. Over a meta-variable
/// or a pending substitution the substitution stays pending.
pub fn apply_ssubst(pattern: Ptr<Pattern>, svar_id: Id, plug: Ptr<Pattern>) -> (r: Result<
    Ptr<Pattern>,
    CheckError,
>)
    ensures
        lift(r) == ssubst_of(pattern@, svar_id, plug@),
    decreases pattern@,
{
    if pattern.get().is_redundant_ssubst(svar_id, plug.clone()) {
        return Ok(pattern);
    }
    match pattern.get() {
        Pattern::SVar(s) => {
            if *s == svar_id {
                Ok(plug)
            } else {
                Ok(pattern.clone())
            }
        },
        Pattern::Implies { left, right } => {
            let l = match apply_ssubst(left.clone(), svar_id, plug.clone()) {
                Ok(l) => l,
                Err(e) => return Err(e),
            };
            let r = match apply_ssubst(right.clone(), svar_id, plug) {
                Ok(r) => r,
                Err(e) => return Err(e),
            };
            Ok(crate::pattern::implies(l, r))
        },
        Pattern::App { left, right } => {
            let l = match apply_ssubst(left.clone(), svar_id, plug.clone()) {
                Ok(l) => l,
                Err(e) => return Err(e),
            };
            let r = match apply_ssubst(right.clone(), svar_id, plug) {
                Ok(r) => r,
                Err(e) => return Err(e),
            };
            Ok(app(l, r))
        },
        Pattern::Exists { var, subpattern } => {
            if !plug.get().e_fresh(*var) {
                return Err(CheckError::Capture);
            }
            match apply_ssubst(subpattern.clone(), svar_id, plug) {
                Ok(s) => Ok(exists_pattern(*var, s)),
                Err(e) => Err(e),
            }
        },
        Pattern::Mu { var, subpattern } => {
            if *var == svar_id {
                return Ok(pattern.clone());
            }
            if !plug.get().s_fresh(*var) {
                return Err(CheckError::Capture);
            }
            match apply_ssubst(subpattern.clone(), svar_id, plug) {
                Ok(s) => Ok(mu(*var, s)),
                Err(e) => Err(e),
            }
        },
        Pattern::MetaVar { .. } | Pattern::ESubst { .. } | Pattern::SSubst { .. } => Ok(
            ssubst(pattern.clone(), svar_id, plug),
        ),
        _ => Ok(pattern.clone()),
    }
}

/// The models of a list of plugs.
pub open spec fn plug_views(plugs: Seq<Ptr<Pattern>>) -> Seq<Pat> {
    plugs.map_values(|p: Ptr<Pattern>| p@)
}

/// Some meta-variable named in `vars` occurs in `p`.
pub open spec fn occurs(p: Pat, vars: Seq<Id>) -> bool
    decreases p,
{
    match p {
        Pat::MetaVar { id, .. } => vars.contains(id),
        Pat::Implies(l, r) => occurs(*l, vars) || occurs(*r, vars),
        Pat::App(l, r) => occurs(*l, vars) || occurs(*r, vars),
        Pat::Exists(_, s) => occurs(*s, vars),
        Pat::Mu(_, s) => occurs(*s, vars),
        Pat::ESubst(q, _, r) => occurs(*q, vars) || occurs(*r, vars),
        Pat::SSubst(q, _, r) => occurs(*q, vars) || occurs(*r, vars),
        _ => false,
    }
}

/// `k` is the first position of `id` in `vars`.
pub open spec fn is_first_pos(vars: Seq<Id>, id: Id, k: int) -> bool {
    &&& 0 <= k < vars.len()
    &&& vars[k] == id
    &&& forall|j: int| 0 <= j < k ==> vars[j] != id
}

pub open spec fn first_pos(vars: Seq<Id>, id: Id) -> int {
    choose|k: int| is_first_pos(vars, id, k)
}

pub open spec fn all_e_fresh(p: Pat, ids: Seq<Id>) -> bool {
    forall|i: int| 0 <= i < ids.len() ==> is_e_fresh(p, #[trigger] ids[i])
}

pub open spec fn all_s_fresh(p: Pat, ids: Seq<Id>) -> bool {
    forall|i: int| 0 <= i < ids.len() ==> is_s_fresh(p, #[trigger] ids[i])
}

pub open spec fn all_positive(p: Pat, ids: Seq<Id>) -> bool {
    forall|i: int| 0 <= i < ids.len() ==> is_positive(p, #[trigger] ids[i])
}

pub open spec fn all_negative(p: Pat, ids: Seq<Id>) -> bool {
    forall|i: int| 0 <= i < ids.len() ==> is_negative(p, #[trigger] ids[i])
}

/// The hole constraints `ids[i..]` checked on `p` in turn: the first one that
/// cannot be decided, or that does not hold, rejects the plug.
pub open spec fn holes_check(p: Pat, ids: Seq<Id>, i: int) -> Result<(), CheckError>
    decreases ids.len() - i,
{
    if i < 0 || i >= ids.len() {
        Ok(())
    } else if !hole_supported(p, ids[i]) {
        Err(CheckError::HoleUnsupported)
    } else if !is_app_ctx_hole(p, ids[i]) {
        Err(CheckError::ConstraintViolated)
    } else {
        holes_check(p, ids, i + 1)
    }
}

/// `plug` may replace the meta-variable `mv`: it meets every constraint that
/// `mv` lists.
pub open spec fn plug_check(plug: Pat, mv: Pat) -> Result<Pat, CheckError> {
    match mv {
        Pat::MetaVar { e_fresh, s_fresh, positive, negative, app_ctx_holes, .. } => {
            if !(all_e_fresh(plug, e_fresh) && all_s_fresh(plug, s_fresh) && all_positive(
                plug,
                positive,
            ) && all_negative(plug, negative)) {
                Err(CheckError::ConstraintViolated)
            } else {
                match holes_check(plug, app_ctx_holes, 0) {
                    Ok(()) => Ok(plug),
                    Err(e) => Err(e),
                }
            }
        },
        _ => Ok(plug),
    }
}

/// Simultaneous instantiation of each meta-variable `vars[i]` of `p` by
/// `plugs[i]`, the first position counting where an id repeats; pending
/// substitutions whose operands changed are applied again.
pub open spec fn inst(p: Pat, vars: Seq<Id>, plugs: Seq<Pat>) -> Result<Pat, CheckError>
    decreases p,
{
    if !occurs(p, vars) {
        Ok(p)
    } else {
        match p {
            Pat::MetaVar { id, .. } => {
                let k = first_pos(vars, id);
                if k >= plugs.len() {
                    Err(CheckError::MissingPlug)
                } else {
                    plug_check(plugs[k], p)
                }
            },
            Pat::Implies(l, r) => match inst(*l, vars, plugs) {
                Ok(a) => match inst(*r, vars, plugs) {
                    Ok(b) => Ok(Pat::Implies(Box::new(a), Box::new(b))),
                    Err(e) => Err(e),
                },
                Err(e) => Err(e),
            },
            Pat::App(l, r) => match inst(*l, vars, plugs) {
                Ok(a) => match inst(*r, vars, plugs) {
                    Ok(b) => Ok(Pat::App(Box::new(a), Box::new(b))),
                    Err(e) => Err(e),
                },
                Err(e) => Err(e),
            },
            Pat::Exists(x, s) => match inst(*s, vars, plugs) {
                Ok(a) => Ok(Pat::Exists(x, Box::new(a))),
                Err(e) => Err(e),
            },
            Pat::Mu(x, s) => match inst(*s, vars, plugs) {
                Ok(a) => Ok(Pat::Mu(x, Box::new(a))),
                Err(e) => Err(e),
            },
            Pat::ESubst(q, x, r) => match inst(*q, vars, plugs) {
                Ok(a) => match inst(*r, vars, plugs) {
                    Ok(b) => esubst_of(a, x, b),
                    Err(e) => Err(e),
                },
                Err(e) => Err(e),
            },
            Pat::SSubst(q, x, r) => match inst(*q, vars, plugs) {
                Ok(a) => match inst(*r, vars, plugs) {
                    Ok(b) => ssubst_of(a, x, b),
                    Err(e) => Err(e),
                },
                Err(e) => Err(e),
            },
            _ => Ok(p),
        }
    }
}

/// The model of an instantiation result, where `None` stands for "unchanged".
pub open spec fn lift_changed(r: Result<Option<Ptr<Pattern>>, CheckError>, p: Pat) -> Result<
    Pat,
    CheckError,
> {
    match r {
        Ok(Some(q)) => Ok(q@),
        Ok(None) => Ok(p),
        Err(e) => Err(e),
    }
}

fn all_e_fresh_exec(plug: &Pattern, ids: &Vec<Id>) -> (r: bool)
    ensures
        r == all_e_fresh(plug@, ids@),
{
    let mut i: usize = 0;
    while i < ids.len()
        invariant
            i <= ids.len(),
            forall|j: int| 0 <= j < i ==> is_e_fresh(plug@, #[trigger] ids@[j]),
        decreases ids.len() - i,
    {
        if !plug.e_fresh(ids[i]) {
            return false;
        }
        i = i + 1;
    }
    true
}

fn all_s_fresh_exec(plug: &Pattern, ids: &Vec<Id>) -> (r: bool)
    ensures
        r == all_s_fresh(plug@, ids@),
{
    let mut i: usize = 0;
    while i < ids.len()
        invariant
            i <= ids.len(),
            forall|j: int| 0 <= j < i ==> is_s_fresh(plug@, #[trigger] ids@[j]),
        decreases ids.len() - i,
    {
        if !plug.s_fresh(ids[i]) {
            return false;
        }
        i = i + 1;
    }
    true
}

fn all_positive_exec(plug: &Pattern, ids: &Vec<Id>) -> (r: bool)
    ensures
        r == all_positive(plug@, ids@),
{
    let mut i: usize = 0;
    while i < ids.len()
        invariant
            i <= ids.len(),
            forall|j: int| 0 <= j < i ==> is_positive(plug@, #[trigger] ids@[j]),
        decreases ids.len() - i,
    {
        if !plug.positive(ids[i]) {
            return false;
        }
        i = i + 1;
    }
    true
}

fn all_negative_exec(plug: &Pattern, ids: &Vec<Id>) -> (r: bool)
    ensures
        r == all_negative(plug@, ids@),
{
    let mut i: usize = 0;
    while i < ids.len()
        invariant
            i <= ids.len(),
            forall|j: int| 0 <= j < i ==> is_negative(plug@, #[trigger] ids@[j]),
        decreases ids.len() - i,
    {
        if !plug.negative(ids[i]) {
            return false;
        }
        i = i + 1;
    }
    true
}

fn holes_check_exec(plug: &Pattern, ids: &Vec<Id>) -> (r: Result<(), CheckError>)
    ensures
        r == holes_check(plug@, ids@, 0),
{
    let mut i: usize = 0;
    while i < ids.len()
        invariant
            i <= ids.len(),
            holes_check(plug@, ids@, 0) == holes_check(plug@, ids@, i as int),
        decreases ids.len() - i,
    {
        if !plug.hole_supported(ids[i]) {
            return Err(CheckError::HoleUnsupported);
        }
        if !plug.app_ctx_hole(ids[i]) {
            return Err(CheckError::ConstraintViolated);
        }
        i = i + 1;
    }
    Ok(())
}

/// Position of the first occurrence of `id` in `vars`, if any.
fn position(vars: &[Id], id: Id) -> (r: Option<usize>)
    ensures
        r matches Some(k) ==> is_first_pos(vars@, id, k as int) && first_pos(vars@, id) == k,
        r is None ==> !vars@.contains(id),
{
    let mut i: usize = 0;
    while i < vars.len()
        invariant
            i <= vars.len(),
            forall|j: int| 0 <= j < i ==> vars@[j] != id,
        decreases vars.len() - i,
    {
        if vars[i] == id {
            proof {
                assert(is_first_pos(vars@, id, i as int));
                let k = first_pos(vars@, id);
                assert(is_first_pos(vars@, id, k));
                if k < i {
                } else if k > i {
                    assert(vars@[i as int] != id);
                }
            }
            return Some(i);
        }
        i = i + 1;
    }
    None
}

/// Instantiation of the meta-variable `mv` itself.
fn instantiate_metavar(mv: &Pattern, vars: &[Id], plugs: &[Ptr<Pattern>]) -> (r: Result<
    Option<Ptr<Pattern>>,
    CheckError,
>)
    requires
        mv@ is MetaVar,
    ensures
        lift_changed(r, mv@) == inst(mv@, vars@, plug_views(plugs@)),
        (r matches Ok(None)) <==> !occurs(mv@, vars@),
{
    let ghost pv = plug_views(plugs@);
    match mv {
        Pattern::MetaVar { id, e_fresh, s_fresh, positive, negative, app_ctx_holes } => {
            let pos = match position(vars, *id) {
                Some(k) => k,
                None => return Ok(None),
            };
            if pos >= plugs.len() {
                return Err(CheckError::MissingPlug);
            }
            let plug = plugs[pos].get();
            assert(plugs@[pos as int]@ == pv[pos as int]);
            if !(all_e_fresh_exec(plug, e_fresh) && all_s_fresh_exec(plug, s_fresh)
                && all_positive_exec(plug, positive) && all_negative_exec(plug, negative)) {
                return Err(CheckError::ConstraintViolated);
            }
            match holes_check_exec(plug, app_ctx_holes) {
                Ok(()) => Ok(Some(plugs[pos].clone())),
                Err(e) => Err(e),
            }
        
        },
        _ => Ok(None),
    }
}

#[verifier::rlimit(50)]
fn instantiate_rec(p: &Ptr<Pattern>, vars: &[Id], plugs: &[Ptr<Pattern>]) -> (r: Result<
    Option<Ptr<Pattern>>,
    CheckError,
>)
    ensures
        lift_changed(r, p@) == inst(p@, vars@, plug_views(plugs@)),
        (r matches Ok(None)) <==> !occurs(p@, vars@),
    decreases p@,
{
    let ghost pv = plug_views(plugs@);
    match p.get() {
        Pattern::Bot() | Pattern::EVar(_) | Pattern::SVar(_) | Pattern::Symbol(_) => Ok(None),
        Pattern::MetaVar { .. } => instantiate_metavar(p.get(), vars, plugs),
        Pattern::Implies { left, right } => {
            let l = match instantiate_rec(left, vars, plugs) {
                Ok(l) => l,
                Err(e) => return Err(e),
            };
            let r = match instantiate_rec(right, vars, plugs) {
                Ok(r) => r,
                Err(e) => return Err(e),
            };
            if l.is_none() && r.is_none() {
                return Ok(None);
            }
            let l = match l {
                Some(l) => l,
                None => left.clone(),
            };
            let r = match r {
                Some(r) => r,
                None => right.clone(),
            };
            Ok(Some(crate::pattern::implies(l, r)))
        },
        Pattern::App { left, right } => {
            let l = match instantiate_rec(left, vars, plugs) {
                Ok(l) => l,
                Err(e) => return Err(e),
            };
            let r = match instantiate_rec(right, vars, plugs) {
                Ok(r) => r,
                Err(e) => return Err(e),
            };
            if l.is_none() && r.is_none() {
                return Ok(None);
            }
            let l = match l {
                Some(l) => l,
                None => left.clone(),
            };
            let r = match r {
                Some(r) => r,
                None => right.clone(),
            };
            Ok(Some(app(l, r)))
        },
        Pattern::Exists { var, subpattern } => {
            match instantiate_rec(subpattern, vars, plugs) {
                Ok(Some(s)) => Ok(Some(exists_pattern(*var, s))),
                Ok(None) => Ok(None),
                Err(e) => Err(e),
            }
        },
        Pattern::Mu { var, subpattern } => {
            match instantiate_rec(subpattern, vars, plugs) {
                Ok(Some(s)) => Ok(Some(mu(*var, s))),
                Ok(None) => Ok(None),
                Err(e) => Err(e),
            }
        },
        Pattern::ESubst { pattern, evar_id, plug } => {
            let q = match instantiate_rec(pattern, vars, plugs) {
                Ok(q) => q,
                Err(e) => return Err(e),
            };
            let r = match instantiate_rec(plug, vars, plugs) {
                Ok(r) => r,
                Err(e) => return Err(e),
            };
            if q.is_none() && r.is_none() {
                return Ok(None);
            }
            let q = match q {
                Some(q) => q,
                None => pattern.clone(),
            };
            let r = match r {
                Some(r) => r,
                None => plug.clone(),
            };
            match apply_esubst(q, *evar_id, r) {
                Ok(s) => Ok(Some(s)),
                Err(e) => Err(e),
            }
        },
        Pattern::SSubst { pattern, svar_id, plug } => {
            let q = match instantiate_rec(pattern, vars, plugs) {
                Ok(q) => q,
                Err(e) => return Err(e),
            };
            let r = match instantiate_rec(plug, vars, plugs) {
                Ok(r) => r,
                Err(e) => return Err(e),
            };
            if q.is_none() && r.is_none() {
                return Ok(None);
            }
            let q = match q {
                Some(q) => q,
                None => pattern.clone(),
            };
            let r = match r {
                Some(r) => r,
                None => plug.clone(),
            };
            match apply_ssubst(q, *svar_id, r) {
                Ok(s) => Ok(Some(s)),
                Err(e) => Err(e),
            }
        },
    }
}

/// Replaces each meta-variable `vars[i]` of `p` by `plugs[i]` at once,
/// checking that every plug meets the constraints of the meta-variable it
/// replaces; the first position counts where an id repeats. Pending
/// substitutions over an instantiated meta-variable are applied again.
pub fn instantiate(p: Ptr<Pattern>, vars: &[Id], plugs: &[Ptr<Pattern>]) -> (r: Result<
    Ptr<Pattern>,
    CheckError,
>)
    ensures
        lift(r) == inst(p@, vars@, plug_views(plugs@)),
{
    match instantiate_rec(&p, vars, plugs) {
        Ok(Some(q)) => Ok(q),
        Ok(None) => Ok(p),
        Err(e) => Err(e),
    }
}

} // verus!
