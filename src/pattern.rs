//! Matching-logic patterns, their mathematical model, and the decidable side
//! conditions (freshness, polarity, application-context holes, well-formedness).
use std::rc::Rc;
use vstd::prelude::*;

verus! {

/// Identifier of an element variable, set variable, symbol or meta-variable.
pub type Id = u8;

pub type IdList = Vec<Id>;

/// A shared, immutable handle on a value.
#[derive(Debug)]
pub struct Ptr<T> {
    pub ptr: Rc<T>,
}

impl<T: View> View for Ptr<T> {
    type V = T::V;

    open spec fn view(&self) -> T::V {
        self.ptr@
    }
}

impl<T> Ptr<T> {
    pub fn new(x: T) -> (r: Self)
        ensures
            *r.ptr == x,
    {
        Ptr { ptr: Rc::new(x) }
    }

    pub fn get(&self) -> (r: &T)
        ensures
            *r == *self.ptr,
    {
        &*self.ptr
    }
}

impl<T> std::ops::Deref for Ptr<T> {
    type Target = T;

    fn deref(&self) -> (r: &T)
        ensures
            *r == *self.ptr,
    {
        &*self.ptr
    }
}

impl<T> Clone for Ptr<T> {
    fn clone(&self) -> (r: Self)
        ensures
            r == *self,
    {
        Ptr { ptr: Rc::clone(&self.ptr) }
    }
}

/// Mathematical model of a pattern: a finite tree with identifier lists as
/// sequences.
pub ghost enum Pat {
    Bot,
    EVar(Id),
    SVar(Id),
    Symbol(Id),
    Implies(Box<Pat>, Box<Pat>),
    App(Box<Pat>, Box<Pat>),
    Exists(Id, Box<Pat>),
    Mu(Id, Box<Pat>),
    MetaVar {
        id: Id,
        e_fresh: Seq<Id>,
        s_fresh: Seq<Id>,
        positive: Seq<Id>,
        negative: Seq<Id>,
        app_ctx_holes: Seq<Id>,
    },
    ESubst(Box<Pat>, Id, Box<Pat>),
    SSubst(Box<Pat>, Id, Box<Pat>),
}

#[derive(Debug)]
pub enum Pattern {
    Bot(),
    EVar(Id),
    SVar(Id),
    Symbol(Id),
    Implies { left: Ptr<Pattern>, right: Ptr<Pattern> },
    App { left: Ptr<Pattern>, right: Ptr<Pattern> },
    Exists { var: Id, subpattern: Ptr<Pattern> },
    Mu { var: Id, subpattern: Ptr<Pattern> },
    MetaVar {
        id: Id,
        e_fresh: IdList,
        s_fresh: IdList,
        positive: IdList,
        negative: IdList,
        app_ctx_holes: IdList,
    },
    ESubst { pattern: Ptr<Pattern>, evar_id: Id, plug: Ptr<Pattern> },
    SSubst { pattern: Ptr<Pattern>, svar_id: Id, plug: Ptr<Pattern> },
}

pub open spec fn pattern_view(p: Pattern) -> Pat
    decreases p,
{
    match p {
        Pattern::Bot() => Pat::Bot,
        Pattern::EVar(x) => Pat::EVar(x),
        Pattern::SVar(x) => Pat::SVar(x),
        Pattern::Symbol(x) => Pat::Symbol(x),
        Pattern::Implies { left, right } => Pat::Implies(
            Box::new(pattern_view(*left.ptr)),
            Box::new(pattern_view(*right.ptr)),
        ),
        Pattern::App { left, right } => Pat::App(
            Box::new(pattern_view(*left.ptr)),
            Box::new(pattern_view(*right.ptr)),
        ),
        Pattern::Exists { var, subpattern } => Pat::Exists(
            var,
            Box::new(pattern_view(*subpattern.ptr)),
        ),
        Pattern::Mu { var, subpattern } => Pat::Mu(var, Box::new(pattern_view(*subpattern.ptr))),
        Pattern::MetaVar { id, e_fresh, s_fresh, positive, negative, app_ctx_holes } => Pat::MetaVar {
            id,
            e_fresh: e_fresh@,
            s_fresh: s_fresh@,
            positive: positive@,
            negative: negative@,
            app_ctx_holes: app_ctx_holes@,
        },
        Pattern::ESubst { pattern, evar_id, plug } => Pat::ESubst(
            Box::new(pattern_view(*pattern.ptr)),
            evar_id,
            Box::new(pattern_view(*plug.ptr)),
        ),
        Pattern::SSubst { pattern, svar_id, plug } => Pat::SSubst(
            Box::new(pattern_view(*pattern.ptr)),
            svar_id,
            Box::new(pattern_view(*plug.ptr)),
        ),
    }
}

impl View for Pattern {
    type V = Pat;

    open spec fn view(&self) -> Pat {
        pattern_view(*self)
    }
}

/// The element variable `x` does not occur free in `p`.
pub open spec fn is_e_fresh(p: Pat, x: Id) -> bool
    decreases p,
{
    match p {
        Pat::EVar(y) => y != x,
        Pat::MetaVar { e_fresh, .. } => e_fresh.contains(x),
        Pat::Implies(l, r) => is_e_fresh(*l, x) && is_e_fresh(*r, x),
        Pat::App(l, r) => is_e_fresh(*l, x) && is_e_fresh(*r, x),
        Pat::Exists(y, q) => y == x || is_e_fresh(*q, x),
        Pat::Mu(_, q) => is_e_fresh(*q, x),
        Pat::ESubst(q, y, r) => if y == x {
            is_e_fresh(*r, x)
        } else {
            is_e_fresh(*q, x) && is_e_fresh(*r, x)
        },
        Pat::SSubst(q, _, r) => is_e_fresh(*q, x) && is_e_fresh(*r, x),
        _ => true,
    }
}

/// The set variable `x` does not occur free in `p`.
pub open spec fn is_s_fresh(p: Pat, x: Id) -> bool
    decreases p,
{
    match p {
        Pat::SVar(y) => y != x,
        Pat::MetaVar { s_fresh, .. } => s_fresh.contains(x),
        Pat::Implies(l, r) => is_s_fresh(*l, x) && is_s_fresh(*r, x),
        Pat::App(l, r) => is_s_fresh(*l, x) && is_s_fresh(*r, x),
        Pat::Exists(_, q) => is_s_fresh(*q, x),
        Pat::Mu(y, q) => y == x || is_s_fresh(*q, x),
        Pat::ESubst(q, _, r) => is_s_fresh(*q, x) && is_s_fresh(*r, x),
        Pat::SSubst(q, y, r) => if y == x {
            is_s_fresh(*r, x)
        } else {
            is_s_fresh(*q, x) && is_s_fresh(*r, x)
        },
        _ => true,
    }
}

/// The set variable `x` occurs only positively in `p`.
pub open spec fn is_positive(p: Pat, x: Id) -> bool
    decreases p,
{
    match p {
        Pat::MetaVar { positive, s_fresh, .. } => positive.contains(x) || s_fresh.contains(x),
        Pat::Implies(l, r) => is_negative(*l, x) && is_positive(*r, x),
        Pat::App(l, r) => is_positive(*l, x) && is_positive(*r, x),
        Pat::Exists(_, q) => is_positive(*q, x),
        Pat::Mu(y, q) => y == x || is_positive(*q, x),
        Pat::ESubst(q, _, r) => is_positive(*q, x) && is_s_fresh(*r, x),
        Pat::SSubst(q, y, r) => {
            let plug_ok = is_s_fresh(*r, x) || (is_positive(*q, y) && is_positive(*r, x)) || (
            is_negative(*q, y) && is_negative(*r, x));
            if y == x {
                plug_ok
            } else {
                is_positive(*q, x) && plug_ok
            }
        },
        _ => true,
    }
}

/// The set variable `x` occurs only negatively in `p`.
pub open spec fn is_negative(p: Pat, x: Id) -> bool
    decreases p,
{
    match p {
        Pat::SVar(y) => y != x,
        Pat::MetaVar { negative, s_fresh, .. } => negative.contains(x) || s_fresh.contains(x),
        Pat::Implies(l, r) => is_positive(*l, x) && is_negative(*r, x),
        Pat::App(l, r) => is_negative(*l, x) && is_negative(*r, x),
        Pat::Exists(_, q) => is_negative(*q, x),
        Pat::Mu(y, q) => y == x || is_negative(*q, x),
        Pat::ESubst(q, _, r) => is_negative(*q, x) && is_s_fresh(*r, x),
        Pat::SSubst(q, y, r) => {
            let plug_ok = is_s_fresh(*r, x) || (is_positive(*q, y) && is_negative(*r, x)) || (
            is_negative(*q, y) && is_positive(*r, x));
            if y == x {
                plug_ok
            } else {
                is_negative(*q, x) && plug_ok
            }
        },
        _ => true,
    }
}

/// The application-context hole check for `x` can be decided on `p`: taking
/// the rules left to right, with `&&` and `||` cutting short, it never has to
/// look into a pending set substitution, where it is not supported.
pub open spec fn hole_supported(p: Pat, x: Id) -> bool
    decreases p,
{
    match p {
        Pat::App(l, r) => hole_supported(*l, x) && if is_app_ctx_hole(*l, x) && is_e_fresh(*r, x) {
            true
        } else if is_e_fresh(*l, x) {
            hole_supported(*r, x)
        } else {
            true
        },
        Pat::ESubst(q, y, r) => hole_supported(*q, x) && if y == x {
            is_app_ctx_hole(*q, x) ==> hole_supported(*r, x)
        } else if is_app_ctx_hole(*q, x) && is_e_fresh(*r, x) {
            true
        } else {
            hole_supported(*q, y) && (is_app_ctx_hole(*q, y) ==> hole_supported(*r, x))
        },
        Pat::SSubst(..) => false,
        _ => true,
    }
}

/// `p` is an application context whose single hole is the element variable `x`.
pub open spec fn is_app_ctx_hole(p: Pat, x: Id) -> bool
    decreases p,
{
    match p {
        Pat::EVar(y) => y == x,
        Pat::MetaVar { app_ctx_holes, .. } => app_ctx_holes.contains(x),
        Pat::App(l, r) => (is_app_ctx_hole(*l, x) && is_e_fresh(*r, x)) || (is_e_fresh(*l, x)
            && is_app_ctx_hole(*r, x)),
        Pat::ESubst(q, y, r) => if y == x {
            is_app_ctx_hole(*q, x) && is_app_ctx_hole(*r, x)
        } else {
            (is_app_ctx_hole(*q, x) && is_e_fresh(*r, x)) || (is_app_ctx_hole(*q, y)
                && is_app_ctx_hole(*r, x) && is_e_fresh(*q, x))
        },
        _ => false,
    }
}

/// A pending substitution may only float above a meta-variable or another
/// pending substitution.
pub open spec fn is_meta_shaped(p: Pat) -> bool {
    p is MetaVar || p is ESubst || p is SSubst
}

pub open spec fn is_redundant_e(p: Pat, x: Id, q: Pat) -> bool {
    is_e_fresh(p, x) || q == Pat::EVar(x)
}

pub open spec fn is_redundant_s(p: Pat, x: Id, q: Pat) -> bool {
    is_s_fresh(p, x) || q == Pat::SVar(x)
}

/// No identifier of `holes` is listed in `fresh`.
pub open spec fn disjoint(fresh: Seq<Id>, holes: Seq<Id>) -> bool {
    forall|i: int| 0 <= i < holes.len() ==> !fresh.contains(#[trigger] holes[i])
}

/// Well-formedness of the outermost constructor of `p`, its sub-patterns
/// being taken as well-formed.
pub open spec fn is_well_formed(p: Pat) -> bool {
    match p {
        Pat::MetaVar { e_fresh, app_ctx_holes, .. } => disjoint(e_fresh, app_ctx_holes),
        Pat::Mu(x, q) => is_positive(*q, x),
        Pat::ESubst(q, x, r) => !is_redundant_e(*q, x, *r) && is_meta_shaped(*q),
        Pat::SSubst(q, x, r) => !is_redundant_s(*q, x, *r) && is_meta_shaped(*q),
        _ => true,
    }
}

/// Membership of `x` in an identifier list.
pub fn contains_id(ids: &Vec<Id>, x: Id) -> (r: bool)
    ensures
        r == ids@.contains(x),
{
    let mut i: usize = 0;
    while i < ids.len()
        invariant
            i <= ids.len(),
            forall|j: int| 0 <= j < i ==> ids@[j] != x,
        decreases ids.len() - i,
    {
        if ids[i] == x {
            return true;
        }
        i = i + 1;
    }
    false
}

/// No identifier of `holes` is listed in `fresh`.
pub fn ids_disjoint(fresh: &Vec<Id>, holes: &Vec<Id>) -> (r: bool)
    ensures
        r == disjoint(fresh@, holes@),
{
    let mut i: usize = 0;
    while i < holes.len()
        invariant
            i <= holes.len(),
            forall|j: int| 0 <= j < i ==> !fresh@.contains(#[trigger] holes@[j]),
        decreases holes.len() - i,
    {
        if contains_id(fresh, holes[i]) {
            assert(fresh@.contains(holes@[i as int]));
            return false;
        }
        i = i + 1;
    }
    true
}

impl Pattern {
    pub fn e_fresh(&self, evar: Id) -> (r: bool)
        ensures
            r == is_e_fresh(self@, evar),
        decreases self,
    {
        match self {
            Pattern::Bot() => true,
            Pattern::EVar(name) => *name != evar,
            Pattern::SVar(_) => true,
            Pattern::Symbol(_) => true,
            Pattern::MetaVar { e_fresh, .. } => contains_id(e_fresh, evar),
            Pattern::Implies { left, right } => left.get().e_fresh(evar) && right.get().e_fresh(
                evar,
            ),
            Pattern::App { left, right } => left.get().e_fresh(evar) && right.get().e_fresh(evar),
            Pattern::Exists { var, subpattern } => evar == *var || subpattern.get().e_fresh(evar),
            Pattern::Mu { subpattern, .. } => subpattern.get().e_fresh(evar),
            Pattern::ESubst { pattern, evar_id, plug } => {
                // every free occurrence of `evar_id` in `pattern` is replaced by `plug`
                if evar == *evar_id {
                    return plug.get().e_fresh(evar);
                }
                pattern.get().e_fresh(evar) && plug.get().e_fresh(evar)
            },
            Pattern::SSubst { pattern, plug, .. } => {
                pattern.get().e_fresh(evar) && plug.get().e_fresh(evar)
            },
        }
    }

    pub fn s_fresh(&self, svar: Id) -> (r: bool)
        ensures
            r == is_s_fresh(self@, svar),
        decreases self,
    {
        match self {
            Pattern::Bot() => true,
            Pattern::EVar(_) => true,
            Pattern::SVar(name) => *name != svar,
            Pattern::Symbol(_) => true,
            Pattern::MetaVar { s_fresh, .. } => contains_id(s_fresh, svar),
            Pattern::Implies { left, right } => left.get().s_fresh(svar) && right.get().s_fresh(
                svar,
            ),
            Pattern::App { left, right } => left.get().s_fresh(svar) && right.get().s_fresh(svar),
            Pattern::Exists { subpattern, .. } => subpattern.get().s_fresh(svar),
            Pattern::Mu { var, subpattern } => svar == *var || subpattern.get().s_fresh(svar),
            Pattern::ESubst { pattern, plug, .. } => {
                pattern.get().s_fresh(svar) && plug.get().s_fresh(svar)
            },
            Pattern::SSubst { pattern, svar_id, plug } => {
                // every free occurrence of `svar_id` in `pattern` is replaced by `plug`
                if svar == *svar_id {
                    return plug.get().s_fresh(svar);
                }
                pattern.get().s_fresh(svar) && plug.get().s_fresh(svar)
            },
        }
    }

    pub fn positive(&self, svar: Id) -> (r: bool)
        ensures
            r == is_positive(self@, svar),
        decreases self,
    {
        match self {
            Pattern::Bot() => true,
            Pattern::EVar(_) => true,
            Pattern::SVar(_) => true,
            Pattern::Symbol(_) => true,
            Pattern::MetaVar { positive, s_fresh, .. } => contains_id(positive, svar)
                || contains_id(s_fresh, svar),
            Pattern::Implies { left, right } => left.get().negative(svar) && right.get().positive(
                svar,
            ),
            Pattern::App { left, right } => left.get().positive(svar) && right.get().positive(
                svar,
            ),
            Pattern::Exists { subpattern, .. } => subpattern.get().positive(svar),
            Pattern::Mu { var, subpattern } => svar == *var || subpattern.get().positive(svar),
            // best effort: the plug must not mention `svar` at all
            Pattern::ESubst { pattern, plug, .. } => {
                pattern.get().positive(svar) && plug.get().s_fresh(svar)
            },
            Pattern::SSubst { pattern, svar_id, plug } => {
                let plug_positive_svar = plug.get().s_fresh(svar) || (pattern.get().positive(
                    *svar_id,
                ) && plug.get().positive(svar)) || (pattern.get().negative(*svar_id)
                    && plug.get().negative(svar));
                if svar == *svar_id {
                    return plug_positive_svar;
                }
                pattern.get().positive(svar) && plug_positive_svar
            },
        }
    }

    pub fn negative(&self, svar: Id) -> (r: bool)
        ensures
            r == is_negative(self@, svar),
        decreases self,
    {
        match self {
            Pattern::Bot() => true,
            Pattern::EVar(_) => true,
            Pattern::SVar(name) => *name != svar,
            Pattern::Symbol(_) => true,
            Pattern::MetaVar { negative, s_fresh, .. } => contains_id(negative, svar)
                || contains_id(s_fresh, svar),
            Pattern::Implies { left, right } => left.get().positive(svar) && right.get().negative(
                svar,
            ),
            Pattern::App { left, right } => left.get().negative(svar) && right.get().negative(
                svar,
            ),
            Pattern::Exists { subpattern, .. } => subpattern.get().negative(svar),
            Pattern::Mu { var, subpattern } => svar == *var || subpattern.get().negative(svar),
            // best effort: the plug must not mention `svar` at all
            Pattern::ESubst { pattern, plug, .. } => {
                pattern.get().negative(svar) && plug.get().s_fresh(svar)
            },
            Pattern::SSubst { pattern, svar_id, plug } => {
                let plug_negative_svar = plug.get().s_fresh(svar) || (pattern.get().positive(
                    *svar_id,
                ) && plug.get().negative(svar)) || (pattern.get().negative(*svar_id)
                    && plug.get().positive(svar));
                if svar == *svar_id {
                    return plug_negative_svar;
                }
                pattern.get().negative(svar) && plug_negative_svar
            },
        }
    }

    /// Whether `app_ctx_hole` can decide this pattern for `evar`.
    pub fn hole_supported(&self, evar: Id) -> (r: bool)
        ensures
            r == hole_supported(self@, evar),
        decreases self,
    {
        match self {
            Pattern::App { left, right } => {
                if !left.get().hole_supported(evar) {
                    return false;
                }
                if left.get().app_ctx_hole(evar) && right.get().e_fresh(evar) {
                    true
                } else if left.get().e_fresh(evar) {
                    right.get().hole_supported(evar)
                } else {
                    true
                }
            },
            Pattern::ESubst { pattern, evar_id, plug } => {
                if !pattern.get().hole_supported(evar) {
                    return false;
                }
                if *evar_id == evar {
                    !pattern.get().app_ctx_hole(evar) || plug.get().hole_supported(evar)
                } else if pattern.get().app_ctx_hole(evar) && plug.get().e_fresh(evar) {
                    true
                } else {
                    pattern.get().hole_supported(*evar_id) && (!pattern.get().app_ctx_hole(
                        *evar_id,
                    ) || plug.get().hole_supported(evar))
                }
            },
            Pattern::SSubst { .. } => false,
            _ => true,
        }
    }

    pub fn app_ctx_hole(&self, evar: Id) -> (r: bool)
        requires
            hole_supported(self@, evar),
        ensures
            r == is_app_ctx_hole(self@, evar),
        decreases self,
    {
        match self {
            Pattern::Bot() => false,
            Pattern::EVar(name) => *name == evar,
            Pattern::SVar(_) => false,
            Pattern::Symbol(_) => false,
            Pattern::MetaVar { app_ctx_holes, .. } => contains_id(app_ctx_holes, evar),
            Pattern::Implies { .. } => false,
            Pattern::App { left, right } => {
                (left.get().app_ctx_hole(evar) && right.get().e_fresh(evar)) || (
                left.get().e_fresh(evar) && right.get().app_ctx_hole(evar))
            },
            Pattern::Exists { .. } => false,
            Pattern::Mu { .. } => false,
            Pattern::ESubst { pattern, evar_id, plug } => {
                if *evar_id == evar {
                    pattern.get().app_ctx_hole(evar) && plug.get().app_ctx_hole(evar)
                } else {
                    (pattern.get().app_ctx_hole(evar) && plug.get().e_fresh(evar)) || (
                    pattern.get().app_ctx_hole(*evar_id) && plug.get().app_ctx_hole(evar)
                        && pattern.get().e_fresh(evar))
                }
            },
            Pattern::SSubst { .. } => false,
        }
    }

    /// Whether this pattern is a meta-variable or a pending substitution.
    pub fn is_meta_shaped(&self) -> (r: bool)
        ensures
            r == is_meta_shaped(self@),
    {
        match self {
            Pattern::MetaVar { .. } | Pattern::ESubst { .. } | Pattern::SSubst { .. } => true,
            _ => false,
        }
    }

    /// Checks the outermost constructor, the sub-patterns being taken as
    /// well-formed.
    pub fn well_formed(&self) -> (r: bool)
        ensures
            r == is_well_formed(self@),
    {
        match self {
            Pattern::MetaVar { e_fresh, app_ctx_holes, .. } => ids_disjoint(e_fresh, app_ctx_holes),
            Pattern::Mu { var, subpattern } => subpattern.get().positive(*var),
            Pattern::ESubst { pattern, evar_id, plug } => {
                !pattern.get().is_redundant_esubst(*evar_id, plug.clone())
                    && pattern.get().is_meta_shaped()
            },
            Pattern::SSubst { pattern, svar_id, plug } => {
                !pattern.get().is_redundant_ssubst(*svar_id, plug.clone())
                    && pattern.get().is_meta_shaped()
            },
            _ => true,
        }
    }

    pub fn is_redundant_esubst(&self, evar_id: Id, plug: Ptr<Pattern>) -> (r: bool)
        ensures
            r == is_redundant_e(self@, evar_id, plug@),
    {
        self.e_fresh(evar_id) || match plug.get() {
            Pattern::EVar(x) => *x == evar_id,
            _ => false,
        }
    }

    pub fn is_redundant_ssubst(&self, svar_id: Id, plug: Ptr<Pattern>) -> (r: bool)
        ensures
            r == is_redundant_s(self@, svar_id, plug@),
    {
        self.s_fresh(svar_id) || match plug.get() {
            Pattern::SVar(x) => *x == svar_id,
            _ => false,
        }
    }
}

/// Equality of two identifier lists.
pub fn ids_eq(a: &Vec<Id>, b: &Vec<Id>) -> (r: bool)
    ensures
        r == (a@ == b@),
{
    if a.len() != b.len() {
        return false;
    }
    let mut i: usize = 0;
    while i < a.len()
        invariant
            i <= a.len(),
            a.len() == b.len(),
            forall|j: int| 0 <= j < i ==> a@[j] == b@[j],
        decreases a.len() - i,
    {
        if a[i] != b[i] {
            return false;
        }
        i = i + 1;
    }
    assert(a@ =~= b@);
    true
}

/// Structural equality of two patterns.
pub fn pattern_eq(a: &Pattern, b: &Pattern) -> (r: bool)
    ensures
        r == (a@ == b@),
    decreases a,
{
    match (a, b) {
        (Pattern::Bot(), Pattern::Bot()) => true,
        (Pattern::EVar(x), Pattern::EVar(y)) => *x == *y,
        (Pattern::SVar(x), Pattern::SVar(y)) => *x == *y,
        (Pattern::Symbol(x), Pattern::Symbol(y)) => *x == *y,
        (
            Pattern::Implies { left: l1, right: r1 },
            Pattern::Implies { left: l2, right: r2 },
        ) => pattern_eq(l1.get(), l2.get()) && pattern_eq(r1.get(), r2.get()),
        (Pattern::App { left: l1, right: r1 }, Pattern::App { left: l2, right: r2 }) => {
            pattern_eq(l1.get(), l2.get()) && pattern_eq(r1.get(), r2.get())
        },
        (
            Pattern::Exists { var: x1, subpattern: s1 },
            Pattern::Exists { var: x2, subpattern: s2 },
        ) => *x1 == *x2 && pattern_eq(s1.get(), s2.get()),
        (Pattern::Mu { var: x1, subpattern: s1 }, Pattern::Mu { var: x2, subpattern: s2 }) => {
            *x1 == *x2 && pattern_eq(s1.get(), s2.get())
        },
        (
            Pattern::MetaVar {
                id: i1,
                e_fresh: e1,
                s_fresh: f1,
                positive: p1,
                negative: n1,
                app_ctx_holes: h1,
            },
            Pattern::MetaVar {
                id: i2,
                e_fresh: e2,
                s_fresh: f2,
                positive: p2,
                negative: n2,
                app_ctx_holes: h2,
            },
        ) => *i1 == *i2 && ids_eq(e1, e2) && ids_eq(f1, f2) && ids_eq(p1, p2) && ids_eq(n1, n2)
            && ids_eq(h1, h2),
        (
            Pattern::ESubst { pattern: p1, evar_id: x1, plug: q1 },
            Pattern::ESubst { pattern: p2, evar_id: x2, plug: q2 },
        ) => *x1 == *x2 && pattern_eq(p1.get(), p2.get()) && pattern_eq(q1.get(), q2.get()),
        (
            Pattern::SSubst { pattern: p1, svar_id: x1, plug: q1 },
            Pattern::SSubst { pattern: p2, svar_id: x2, plug: q2 },
        ) => *x1 == *x2 && pattern_eq(p1.get(), p2.get()) && pattern_eq(q1.get(), q2.get()),
        _ => false,
    }
}

impl PartialEq for Pattern {
    fn eq(&self, other: &Pattern) -> (r: bool) {
        pattern_eq(self, other)
    }
}

impl vstd::std_specs::cmp::PartialEqSpecImpl for Pattern {
    open spec fn obeys_eq_spec() -> bool {
        true
    }

    open spec fn eq_spec(&self, other: &Pattern) -> bool {
        self@ == other@
    }
}

impl Eq for Pattern {

}

impl PartialEq for Ptr<Pattern> {
    fn eq(&self, other: &Ptr<Pattern>) -> (r: bool) {
        pattern_eq(self.get(), other.get())
    }
}

impl vstd::std_specs::cmp::PartialEqSpecImpl for Ptr<Pattern> {
    open spec fn obeys_eq_spec() -> bool {
        true
    }

    open spec fn eq_spec(&self, other: &Ptr<Pattern>) -> bool {
        self@ == other@
    }
}

impl Eq for Ptr<Pattern> {

}

// Models of the pattern builders.
pub open spec fn unconstrained(id: Id) -> Pat {
    Pat::MetaVar {
        id,
        e_fresh: seq![],
        s_fresh: seq![],
        positive: seq![],
        negative: seq![],
        app_ctx_holes: seq![],
    }
}

pub open spec fn pat_implies(l: Pat, r: Pat) -> Pat {
    Pat::Implies(Box::new(l), Box::new(r))
}

pub open spec fn pat_exists(x: Id, p: Pat) -> Pat {
    Pat::Exists(x, Box::new(p))
}

pub open spec fn pat_mu(x: Id, p: Pat) -> Pat {
    Pat::Mu(x, Box::new(p))
}

pub open spec fn pat_not(p: Pat) -> Pat {
    pat_implies(p, Pat::Bot)
}

/// Pattern construction
pub fn bot() -> (r: Ptr<Pattern>)
    ensures
        r@ == Pat::Bot,
{
    Ptr::new(Pattern::Bot())
}

pub fn evar(id: Id) -> (r: Ptr<Pattern>)
    ensures
        r@ == Pat::EVar(id),
{
    Ptr::new(Pattern::EVar(id))
}

pub fn svar(id: Id) -> (r: Ptr<Pattern>)
    ensures
        r@ == Pat::SVar(id),
{
    Ptr::new(Pattern::SVar(id))
}

pub fn symbol(id: Id) -> (r: Ptr<Pattern>)
    ensures
        r@ == Pat::Symbol(id),
{
    Ptr::new(Pattern::Symbol(id))
}

pub fn metavar_unconstrained(var_id: Id) -> (r: Ptr<Pattern>)
    ensures
        r@ == unconstrained(var_id),
{
    let r = Ptr::new(
        Pattern::MetaVar {
            id: var_id,
            e_fresh: vec![],
            s_fresh: vec![],
            positive: vec![],
            negative: vec![],
            app_ctx_holes: vec![],
        },
    );
    proof {
        assert(r@->e_fresh =~= Seq::<Id>::empty());
        assert(r@->s_fresh =~= Seq::<Id>::empty());
        assert(r@->positive =~= Seq::<Id>::empty());
        assert(r@->negative =~= Seq::<Id>::empty());
        assert(r@->app_ctx_holes =~= Seq::<Id>::empty());
    }
    r
}

pub fn metavar_positive(var_id: Id, svar: Id) -> (r: Ptr<Pattern>)
    ensures
        r@ == (Pat::MetaVar {
            id: var_id,
            e_fresh: seq![],
            s_fresh: seq![],
            positive: seq![svar],
            negative: seq![],
            app_ctx_holes: seq![],
        }),
{
    let r = Ptr::new(
        Pattern::MetaVar {
            id: var_id,
            e_fresh: vec![],
            s_fresh: vec![],
            positive: vec![svar],
            negative: vec![],
            app_ctx_holes: vec![],
        },
    );
    proof {
        assert(r@->e_fresh =~= Seq::<Id>::empty());
        assert(r@->s_fresh =~= Seq::<Id>::empty());
        assert(r@->positive =~= seq![svar]);
        assert(r@->negative =~= Seq::<Id>::empty());
        assert(r@->app_ctx_holes =~= Seq::<Id>::empty());
    }
    r
}

pub fn metavar_app_ctx_hole(var_id: Id, evar: Id) -> (r: Ptr<Pattern>)
    ensures
        r@ == (Pat::MetaVar {
            id: var_id,
            e_fresh: seq![],
            s_fresh: seq![],
            positive: seq![],
            negative: seq![],
            app_ctx_holes: seq![evar],
        }),
{
    let r = Ptr::new(
        Pattern::MetaVar {
            id: var_id,
            e_fresh: vec![],
            s_fresh: vec![],
            positive: vec![],
            negative: vec![],
            app_ctx_holes: vec![evar],
        },
    );
    proof {
        assert(r@->e_fresh =~= Seq::<Id>::empty());
        assert(r@->s_fresh =~= Seq::<Id>::empty());
        assert(r@->positive =~= Seq::<Id>::empty());
        assert(r@->negative =~= Seq::<Id>::empty());
        assert(r@->app_ctx_holes =~= seq![evar]);
    }
    r
}

pub fn metavar_e_fresh(var_id: Id, fresh: Id, positive: IdList, negative: IdList) -> (r: Ptr<
    Pattern,
>)
    ensures
        r@ == (Pat::MetaVar {
            id: var_id,
            e_fresh: seq![fresh],
            s_fresh: seq![],
            positive: positive@,
            negative: negative@,
            app_ctx_holes: seq![],
        }),
{
    let r = Ptr::new(
        Pattern::MetaVar {
            id: var_id,
            e_fresh: vec![fresh],
            s_fresh: vec![],
            positive,
            negative,
            app_ctx_holes: vec![],
        },
    );
    proof {
        assert(r@->e_fresh =~= seq![fresh]);
        assert(r@->s_fresh =~= Seq::<Id>::empty());
        assert(r@->app_ctx_holes =~= Seq::<Id>::empty());
    }
    r
}

pub fn metavar_s_fresh(var_id: Id, fresh: Id, positive: IdList, negative: IdList) -> (r: Ptr<
    Pattern,
>)
    ensures
        r@ == (Pat::MetaVar {
            id: var_id,
            e_fresh: seq![],
            s_fresh: seq![fresh],
            positive: positive@,
            negative: negative@,
            app_ctx_holes: seq![],
        }),
{
    let r = Ptr::new(
        Pattern::MetaVar {
            id: var_id,
            e_fresh: vec![],
            s_fresh: vec![fresh],
            positive,
            negative,
            app_ctx_holes: vec![],
        },
    );
    proof {
        assert(r@->e_fresh =~= Seq::<Id>::empty());
        assert(r@->s_fresh =~= seq![fresh]);
        assert(r@->app_ctx_holes =~= Seq::<Id>::empty());
    }
    r
}

pub fn exists_pattern(var: Id, subpattern: Ptr<Pattern>) -> (r: Ptr<Pattern>)
    ensures
        r@ == pat_exists(var, subpattern@),
{
    Ptr::new(Pattern::Exists { var, subpattern })
}

/// Builds `mu var. subpattern` without checking that `subpattern` is
/// positive in `var`.
pub fn mu(var: Id, subpattern: Ptr<Pattern>) -> (r: Ptr<Pattern>)
    ensures
        r@ == pat_mu(var, subpattern@),
{
    Ptr::new(Pattern::Mu { var, subpattern })
}

/// Builds the pending substitution without checking its well-formedness.
pub fn esubst(pattern: Ptr<Pattern>, evar_id: Id, plug: Ptr<Pattern>) -> (r: Ptr<Pattern>)
    ensures
        r@ == Pat::ESubst(Box::new(pattern@), evar_id, Box::new(plug@)),
{
    Ptr::new(Pattern::ESubst { pattern, evar_id, plug })
}

/// Builds the pending substitution without checking its well-formedness.
pub fn ssubst(pattern: Ptr<Pattern>, svar_id: Id, plug: Ptr<Pattern>) -> (r: Ptr<Pattern>)
    ensures
        r@ == Pat::SSubst(Box::new(pattern@), svar_id, Box::new(plug@)),
{
    Ptr::new(Pattern::SSubst { pattern, svar_id, plug })
}

pub fn implies(left: Ptr<Pattern>, right: Ptr<Pattern>) -> (r: Ptr<Pattern>)
    ensures
        r@ == pat_implies(left@, right@),
{
    Ptr::new(Pattern::Implies { left, right })
}

pub fn app(left: Ptr<Pattern>, right: Ptr<Pattern>) -> (r: Ptr<Pattern>)
    ensures
        r@ == Pat::App(Box::new(left@), Box::new(right@)),
{
    Ptr::new(Pattern::App { left, right })
}

/// Negation, as implication of falsum.
pub fn not(pat: Ptr<Pattern>) -> (r: Ptr<Pattern>)
    ensures
        r@ == pat_not(pat@),
{
    implies(pat, bot())
}

/// Universal quantification, as the dual of existential quantification.
pub fn forall_pattern(evar: Id, pat: Ptr<Pattern>) -> (r: Ptr<Pattern>)
    ensures
        r@ == pat_not(pat_exists(evar, pat_not(pat@))),
{
    not(exists_pattern(evar, not(pat)))
}

} // verus!
