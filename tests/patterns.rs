use checker::pattern;
use checker::pattern::{
    app, bot, esubst, evar, exists_pattern, metavar_e_fresh, metavar_s_fresh,
    metavar_unconstrained, mu, not, ssubst, svar, symbol, Pattern, Ptr,
};

#[test]
fn test_efresh() {
    assert!(bot().e_fresh(0));
    let evar = evar(1);
    let left = Ptr::new(Pattern::Exists { var: 1, subpattern: evar.clone() });
    assert!(left.e_fresh(1));

    let right = Ptr::new(Pattern::Exists { var: 2, subpattern: evar });
    assert!(!right.e_fresh(1));

    let implication = pattern::implies(left.clone(), right.clone());
    assert!(!implication.e_fresh(1));

    let mvar = metavar_s_fresh(1, 2, vec![2], vec![2]);
    let metaapp = Pattern::App { left: left.clone(), right: mvar };
    assert!(!metaapp.e_fresh(2));

    let esubst_ = esubst(right.clone(), 1, left.clone());
    assert!(esubst_.e_fresh(1));

    let ssubst_ = ssubst(right, 1, left);
    assert!(!ssubst_.e_fresh(1));
}

#[test]
fn test_sfresh() {
    assert!(bot().s_fresh(0));
    let svar = svar(1);
    let left = Ptr::new(Pattern::Mu { var: 1, subpattern: svar.clone() });
    assert!(left.s_fresh(1));

    let right = Ptr::new(Pattern::Mu { var: 2, subpattern: svar });
    assert!(!right.s_fresh(1));

    let implication = pattern::implies(left.clone(), right.clone());
    assert!(!implication.s_fresh(1));

    let mvar = metavar_s_fresh(1, 2, vec![2], vec![2]);
    let metaapp = Pattern::App { left: left.clone(), right: mvar.clone() };
    assert!(!metaapp.s_fresh(1));

    let metaapp2 = Pattern::App { left: left.clone(), right: mvar };
    assert!(metaapp2.s_fresh(2));

    let esubst_ = esubst(right.clone(), 1, left.clone());
    assert!(!esubst_.s_fresh(1));

    let ssubst_ = ssubst(right, 1, left);
    assert!(ssubst_.s_fresh(1));
}

#[test]
fn test_wellformedness_fresh() {
    let phi0_s_fresh_0 = metavar_s_fresh(0, 0, vec![0], vec![0]);
    assert!(phi0_s_fresh_0.well_formed());

    let phi1 = Ptr::new(Pattern::MetaVar {
        id: 1,
        e_fresh: vec![1, 2, 0],
        s_fresh: vec![],
        positive: vec![],
        negative: vec![],
        app_ctx_holes: vec![2],
    });
    assert!(!phi1.well_formed());
}

#[test]
#[allow(non_snake_case)]
fn test_wellformedness_esubst_ssubst() {
    let phi0_x1_s1 = esubst(metavar_unconstrained(0), 1, symbol(1));
    assert!(phi0_x1_s1.well_formed());

    let s0_x1_s1 = esubst(symbol(0), 1, symbol(1));
    assert!(!s0_x1_s1.well_formed());

    let phi0_x1_x1 = esubst(metavar_unconstrained(0), 1, evar(1));
    assert!(!phi0_x1_x1.well_formed());

    let phi0_fresh_x1_s1 = esubst(metavar_e_fresh(0, 1, vec![], vec![]), 1, symbol(1));
    assert!(!phi0_fresh_x1_s1.well_formed());

    let phi0_X1_s1 = ssubst(metavar_unconstrained(0), 1, symbol(1));
    assert!(phi0_X1_s1.well_formed());

    let phi0_X1_X1 = ssubst(metavar_unconstrained(0), 1, svar(1));
    assert!(!phi0_X1_X1.well_formed());

    let s0_X1_s1 = ssubst(symbol(0), 1, symbol(1));
    assert!(!s0_X1_s1.well_formed());

    let phi0_fresh_X1_s1 = ssubst(metavar_s_fresh(0, 1, vec![], vec![]), 1, symbol(1));
    assert!(!phi0_fresh_X1_s1.well_formed());
}

#[test]
#[allow(non_snake_case)]
fn test_positivity() {
    let X0 = svar(0);
    let X1 = svar(1);
    let X2 = svar(2);
    let c1 = symbol(1);
    let neg_X1 = not(X1.clone());

    // Bot
    assert!(bot().positive(0));
    assert!(bot().negative(0));

    // EVar
    let evar1 = evar(1);
    assert!(evar1.positive(1));
    assert!(evar1.negative(1));
    assert!(evar1.positive(2));
    assert!(evar1.negative(2));

    // SVar
    assert!(X1.positive(1));
    assert!(!X1.negative(1));
    assert!(X1.positive(2));
    assert!(X1.negative(2));

    // Symbol
    assert!(c1.positive(1));
    assert!(c1.negative(1));
    assert!(c1.positive(2));
    assert!(c1.negative(2));

    // App
    let appX1X2 = app(X1.clone(), X2.clone());
    assert!(appX1X2.positive(1));
    assert!(appX1X2.positive(2));
    assert!(appX1X2.positive(3));
    assert!(!appX1X2.negative(1));
    assert!(!appX1X2.negative(2));
    assert!(appX1X2.negative(3));

    // Implies
    let impliesX1X2 = pattern::implies(X1.clone(), X2.clone());
    assert!(!impliesX1X2.positive(1));
    assert!(impliesX1X2.positive(2));
    assert!(impliesX1X2.positive(3));
    assert!(impliesX1X2.negative(1));
    assert!(!impliesX1X2.negative(2));
    assert!(impliesX1X2.negative(3));

    let impliesX1X1 = pattern::implies(X1.clone(), X1.clone());
    assert!(!impliesX1X1.positive(1));
    assert!(!impliesX1X1.negative(1));

    // Exists
    let existsX1X2 = exists_pattern(1, X2.clone());
    assert!(existsX1X2.positive(1));
    assert!(existsX1X2.positive(2));
    assert!(existsX1X2.positive(3));
    assert!(existsX1X2.negative(1));
    assert!(!existsX1X2.negative(2));
    assert!(existsX1X2.negative(3));

    let existsX1nX2 = exists_pattern(1, not(X2.clone()));
    assert!(existsX1nX2.negative(2));

    // Mu
    let muX1x1 = mu(1, evar1.clone());
    assert!(muX1x1.positive(1));
    assert!(muX1x1.positive(2));
    assert!(muX1x1.negative(1));
    assert!(muX1x1.negative(2));

    let muX1X1 = mu(1, X1.clone());
    assert!(muX1X1.positive(1));
    assert!(muX1X1.negative(1));

    let muX1X2 = mu(1, X2.clone());
    assert!(muX1X2.positive(1));
    assert!(muX1X2.positive(2));
    assert!(muX1X2.positive(3));
    assert!(muX1X2.negative(1));
    assert!(!muX1X2.negative(2));
    assert!(mu(1, pattern::implies(X2.clone(), X1.clone())).negative(2));
    assert!(muX1X2.negative(3));

    // MetaVar
    assert!(!metavar_unconstrained(1).positive(1));
    assert!(!metavar_unconstrained(1).positive(2));
    assert!(!metavar_unconstrained(1).negative(1));
    assert!(!metavar_unconstrained(1).negative(2));

    assert!(metavar_s_fresh(1, 1, vec![], vec![]).positive(1));
    assert!(metavar_s_fresh(1, 1, vec![], vec![]).negative(1));
    assert!(metavar_s_fresh(1, 1, vec![1], vec![1]).positive(1));
    assert!(metavar_s_fresh(1, 1, vec![1], vec![1]).negative(1));
    assert!(metavar_s_fresh(1, 1, vec![1], vec![]).positive(1));
    assert!(metavar_s_fresh(1, 1, vec![1], vec![]).negative(1));
    assert!(metavar_s_fresh(1, 1, vec![], vec![1]).positive(1));
    assert!(metavar_s_fresh(1, 1, vec![], vec![1]).negative(1));

    assert!(!metavar_s_fresh(1, 1, vec![], vec![]).positive(2));
    assert!(!metavar_s_fresh(1, 1, vec![], vec![]).negative(2));

    // ESubst
    assert!(!esubst(metavar_unconstrained(0), 0, X0.clone()).positive(0));
    assert!(!esubst(metavar_unconstrained(0), 0, X1.clone()).positive(0));
    assert!(!esubst(metavar_s_fresh(0, 1, vec![1], vec![]), 0, X1.clone()).positive(0));

    assert!(!esubst(metavar_unconstrained(0), 0, X0.clone()).negative(0));
    assert!(!esubst(metavar_unconstrained(0), 0, X1.clone()).negative(0));
    assert!(!esubst(metavar_s_fresh(0, 1, vec![1], vec![]), 0, X1.clone()).negative(0));

    // SSubst
    assert!(!ssubst(metavar_unconstrained(0), 0, X0.clone()).positive(0));
    assert!(ssubst(metavar_unconstrained(0), 0, X1.clone()).positive(0));
    assert!(ssubst(metavar_s_fresh(0, 1, vec![1], vec![]), 0, X1.clone()).positive(0));

    assert!(!ssubst(metavar_unconstrained(0), 0, X0.clone()).negative(0));
    assert!(ssubst(metavar_unconstrained(0), 0, X1.clone()).negative(0));
    assert!(ssubst(metavar_s_fresh(0, 1, vec![1], vec![]), 0, X1.clone()).negative(0));

    // Combinations
    assert!(!neg_X1.positive(1));
    assert!(neg_X1.positive(2));
    assert!(neg_X1.negative(1));
    assert!(neg_X1.negative(2));

    let negX1_implies_negX1 = pattern::implies(neg_X1.clone(), neg_X1.clone());
    assert!(!negX1_implies_negX1.positive(1));
    assert!(negX1_implies_negX1.positive(2));
    assert!(!negX1_implies_negX1.negative(1));
    assert!(negX1_implies_negX1.negative(2));

    let negX1_implies_X1 = pattern::implies(neg_X1, X1);
    assert!(negX1_implies_X1.positive(1));
    assert!(!negX1_implies_X1.negative(1));
}

#[test]
#[allow(non_snake_case)]
fn test_app_ctx_hole() {
    assert!(!bot().app_ctx_hole(0));
    assert!(!metavar_unconstrained(0).app_ctx_hole(0));
    assert!((Pattern::MetaVar {
        id: 0,
        e_fresh: vec![],
        s_fresh: vec![],
        positive: vec![],
        negative: vec![],
        app_ctx_holes: vec![0],
    })
    .app_ctx_hole(0));
    assert!(evar(0).app_ctx_hole(0));
    assert!(!evar(1).app_ctx_hole(0));
    assert!(!svar(0).app_ctx_hole(0));
    assert!(!symbol(0).app_ctx_hole(0));
    assert!(!pattern::implies(evar(0), evar(1)).app_ctx_hole(0));
    assert!(app(evar(0), evar(1)).app_ctx_hole(0));
    assert!(app(evar(1), evar(0)).app_ctx_hole(0));
    assert!(!app(evar(0), evar(0)).app_ctx_hole(0));
    assert!(!app(evar(1), evar(1)).app_ctx_hole(0));
    assert!(!exists_pattern(0, evar(0)).app_ctx_hole(0));
    assert!(!exists_pattern(0, evar(1)).app_ctx_hole(0));
    assert!(!exists_pattern(1, evar(0)).app_ctx_hole(0));
    assert!(!exists_pattern(1, evar(1)).app_ctx_hole(0));
    assert!(!mu(0, evar(0)).app_ctx_hole(0));
    assert!(!mu(0, svar(0)).app_ctx_hole(0));
}

#[test]
fn test_wellformedness_positive() {
    let svar = svar(1);
    let mux_x = mu(1, svar.clone());
    assert!(mux_x.well_formed());

    let mux_x2 = mu(2, not(svar.clone()));
    assert!(mux_x2.well_formed());

    let mux_x3 = mu(2, not(symbol(1)));
    assert!(mux_x3.well_formed());

    let mux_x = mu(1, not(svar));
    assert!(!mux_x.well_formed());

    let phi = metavar_s_fresh(97, 2, vec![], vec![]);
    let mux_phi = mu(1, phi);
    assert!(!mux_phi.well_formed());

    let phi2 = metavar_s_fresh(98, 1, vec![], vec![]);
    let mux_phi2 = mu(1, phi2);
    assert!(mux_phi2.well_formed());

    // 2 may also be negative: what matters is that it is guaranteed positive
    let phi3 = metavar_s_fresh(99, 1, vec![2], vec![2]);
    let mux_phi3 = mu(2, phi3);
    assert!(mux_phi3.well_formed());

    let phi4 = metavar_s_fresh(100, 1, vec![2], vec![]);
    let mux_phi4 = mu(2, phi4);
    assert!(mux_phi4.well_formed());
}

#[test]
fn redundant_esubst_cases() {
    assert!(metavar_unconstrained(0).is_redundant_esubst(0, evar(0)));
    assert!(!metavar_unconstrained(0).is_redundant_esubst(0, evar(1)));
    assert!(metavar_e_fresh(0, 0, vec![], vec![]).is_redundant_esubst(0, symbol(0)));
    assert!(!metavar_e_fresh(0, 1, vec![], vec![]).is_redundant_esubst(0, symbol(0)));
}

#[test]
fn redundant_ssubst_cases() {
    assert!(metavar_unconstrained(0).is_redundant_ssubst(0, svar(0)));
    assert!(!metavar_unconstrained(0).is_redundant_ssubst(0, svar(1)));
    assert!(metavar_s_fresh(0, 0, vec![], vec![]).is_redundant_ssubst(0, symbol(0)));
    assert!(!metavar_s_fresh(0, 1, vec![], vec![]).is_redundant_ssubst(0, symbol(0)));
}

#[test]
fn hole_check_refuses_set_substitution() {
    // the check must look into the pending set substitution on the left
    let p = app(ssubst(metavar_unconstrained(0), 0, symbol(0)), evar(0));
    assert!(!p.hole_supported(0));
    assert!(app(evar(0), esubst(metavar_unconstrained(0), 1, symbol(0))).hole_supported(0));
    assert!(pattern::implies(ssubst(metavar_unconstrained(0), 0, symbol(0)), bot()).hole_supported(0));
    // the left side is the hole and the right side is fresh: the check stops there
    let fresh = metavar_e_fresh(1, 0, vec![], vec![]);
    let q = app(evar(0), ssubst(fresh, 1, symbol(0)));
    assert!(q.hole_supported(0));
    assert!(q.app_ctx_hole(0));
    // for another hole the check reaches the set substitution
    assert!(!q.hole_supported(1));
}

#[test]
fn structural_equality_ignores_sharing() {
    let a = pattern::implies(symbol(0), metavar_e_fresh(1, 2, vec![3], vec![]));
    let b = pattern::implies(symbol(0), metavar_e_fresh(1, 2, vec![3], vec![]));
    assert_eq!(a, b);
    assert_ne!(a, pattern::implies(symbol(0), metavar_e_fresh(1, 2, vec![4], vec![])));
    assert_ne!(evar(0), svar(0));
}
