use checker::error::CheckError;
use checker::pattern;
use checker::pattern::{
    app, bot, esubst, evar, exists_pattern, metavar_e_fresh, metavar_s_fresh,
    metavar_unconstrained, mu, not, ssubst, svar, symbol, Pattern, Ptr,
};
use checker::subst::{apply_esubst, apply_ssubst, instantiate};

fn inst(p: &Ptr<Pattern>, vars: &[u8], plugs: &[Ptr<Pattern>]) -> Ptr<Pattern> {
    instantiate(p.clone(), vars, plugs).unwrap()
}

#[test]
#[allow(non_snake_case)]
fn test_instantiate() {
    let x0 = evar(0);
    let X0 = svar(0);
    let c0 = symbol(0);
    let x0_implies_x0 = pattern::implies(x0.clone(), x0.clone());
    let appx0x0 = app(x0.clone(), x0.clone());
    let existsx0x0 = exists_pattern(0, x0.clone());
    let muX0x0 = mu(0, x0.clone());

    // Concrete patterns are unaffected by instantiate
    assert!(inst(&bot(), &[0], &[X0.clone()]) == bot());
    assert!(inst(&x0, &[0], &[X0.clone()]) == x0);
    assert!(inst(&x0, &[1], &[X0.clone()]) == x0);
    assert!(inst(&X0, &[0], &[x0.clone()]) == X0);
    assert!(inst(&X0, &[1], &[x0.clone()]) == X0);
    assert!(inst(&c0, &[0], &[x0.clone()]) == c0);
    assert!(inst(&c0, &[1], &[x0.clone()]) == c0);
    assert!(inst(&x0_implies_x0, &[0], &[x0.clone()]) == x0_implies_x0);
    assert!(inst(&x0_implies_x0, &[1], &[x0.clone()]) == x0_implies_x0);
    assert!(inst(&appx0x0, &[0], &[x0.clone()]) == appx0x0);
    assert!(inst(&appx0x0, &[1], &[x0.clone()]) == appx0x0);
    assert!(inst(&existsx0x0, &[0], &[X0.clone()]) == existsx0x0);
    assert!(inst(&existsx0x0, &[1], &[X0.clone()]) == existsx0x0);
    assert!(inst(&muX0x0, &[0], &[x0.clone()]) == muX0x0);
    assert!(inst(&muX0x0, &[1], &[x0.clone()]) == muX0x0);

    let phi0 = metavar_unconstrained(0);
    let phi0_implies_phi0 = pattern::implies(phi0.clone(), phi0.clone());
    let appphi0phi0 = app(phi0.clone(), phi0.clone());
    let existsx0phi0 = exists_pattern(0, phi0.clone());
    let muX0phi0 = mu(0, phi0.clone());
    let existsx0X0 = exists_pattern(0, X0.clone());
    assert!(inst(&phi0_implies_phi0, &[0], &[x0.clone()]) == x0_implies_x0);
    assert!(inst(&phi0_implies_phi0, &[1], &[x0.clone()]) == phi0_implies_phi0);
    assert_eq!(inst(&appphi0phi0, &[0], &[x0.clone()]), appx0x0);
    assert_eq!(inst(&appphi0phi0, &[1], &[x0.clone()]), appphi0phi0);
    assert_eq!(inst(&existsx0phi0, &[0], &[x0.clone()]), existsx0x0);
    assert_eq!(inst(&existsx0phi0, &[1], &[x0.clone()]), existsx0phi0);
    assert_eq!(inst(&muX0phi0, &[0], &[x0.clone()]), muX0x0);
    assert_eq!(inst(&muX0phi0, &[1], &[x0.clone()]), muX0phi0);

    // Simultaneous instantiations
    let phi1 = metavar_unconstrained(1);
    let muX0phi1 = mu(0, phi1.clone());
    let muX0X0 = mu(0, X0.clone());
    // Empty substs have no effect
    assert!(inst(&existsx0phi0, &[1, 2], &[x0.clone(), X0.clone()]) == existsx0phi0);
    assert!(inst(&existsx0phi0, &[2, 1], &[x0.clone(), X0.clone()]) == existsx0phi0);
    assert!(inst(&muX0phi0, &[1, 2], &[x0.clone(), X0.clone()]) == muX0phi0);
    assert!(inst(&muX0phi0, &[2, 1], &[x0.clone(), X0.clone()]) == muX0phi0);

    // Order matters if corresponding value is not moved
    assert!(inst(&existsx0phi0, &[1, 0], &[x0.clone(), X0.clone()]) == existsx0X0);
    assert!(inst(&existsx0phi0, &[0, 1], &[x0.clone(), X0.clone()]) == existsx0x0);
    assert!(inst(&muX0phi0, &[1, 0], &[x0.clone(), X0.clone()]) == muX0X0);
    assert!(inst(&muX0phi0, &[0, 1], &[x0.clone(), X0.clone()]) == muX0x0);

    // Order does not matter if corresponding value is moved
    let muX0phi0_implies_ph1 = pattern::implies(muX0phi0.clone(), phi1.clone());
    let muX0x0_implies_X0 = pattern::implies(muX0x0.clone(), X0.clone());
    assert!(inst(&muX0phi0_implies_ph1, &[0, 1], &[x0.clone(), X0.clone()]) == muX0x0_implies_X0);
    assert!(inst(&muX0phi0_implies_ph1, &[1, 0], &[X0.clone(), x0.clone()]) == muX0x0_implies_X0);
    let muX0phi0_app_ph1 = app(muX0phi0.clone(), phi1.clone());
    let muX0x0_app_X0 = app(muX0x0.clone(), X0.clone());
    assert!(inst(&muX0phi0_app_ph1, &[0, 1], &[x0.clone(), X0.clone()]) == muX0x0_app_X0);
    assert!(inst(&muX0phi0_app_ph1, &[1, 0], &[X0.clone(), x0.clone()]) == muX0x0_app_X0);

    // No side-effects
    let muX0ph1_implies_X0 = pattern::implies(muX0phi1.clone(), X0.clone());
    assert!(
        inst(&muX0phi0_implies_ph1, &[0, 1], &[phi1.clone(), X0.clone()]) == muX0ph1_implies_X0
    );
    assert!(
        inst(&muX0phi0_implies_ph1, &[1, 0], &[X0.clone(), phi1.clone()]) == muX0ph1_implies_X0
    );
    let muX0ph1_app_X0 = app(muX0phi1.clone(), X0.clone());
    assert!(inst(&muX0phi0_app_ph1, &[0, 1], &[phi1.clone(), X0.clone()]) == muX0ph1_app_X0);
    assert!(inst(&muX0phi0_app_ph1, &[1, 0], &[X0.clone(), phi1.clone()]) == muX0ph1_app_X0);

    // First comes first
    assert!(
        inst(&muX0phi0_app_ph1, &[0, 1, 1], &[phi1.clone(), X0.clone(), x0.clone()])
            == muX0ph1_app_X0
    );
    assert!(
        inst(&muX0phi0_app_ph1, &[1, 0, 0], &[X0.clone(), phi1.clone(), x0.clone()])
            == muX0ph1_app_X0
    );

    // Extra values are ignored
    assert!(
        inst(
            &muX0phi0_app_ph1,
            &[0, 1, 1],
            &[
                phi1.clone(),
                X0.clone(),
                x0.clone(),
                x0.clone(),
                x0.clone(),
                x0.clone(),
                x0.clone(),
                x0.clone()
            ]
        ) == muX0ph1_app_X0
    );
    assert!(inst(&muX0phi0_app_ph1, &[0, 1, 2], &[phi1.clone(), X0.clone()]) == muX0ph1_app_X0);

    // Instantiate with concrete patterns applies pending substitutions
    let val = esubst(phi0.clone(), 0, c0.clone());
    assert_eq!(inst(&val, &[0], &[x0.clone()]), c0);
    let val = ssubst(phi0.clone(), 0, c0.clone());
    assert_eq!(inst(&val, &[0], &[X0.clone()]), c0);
    let val = ssubst(esubst(phi0.clone(), 0, X0.clone()), 0, c0.clone());
    assert_eq!(inst(&val, &[0], &[X0.clone()]), c0);

    // Instantiate with metavar keeps pending substitutions
    let val = esubst(phi0.clone(), 0, c0.clone());
    assert_eq!(inst(&val, &[0], &[phi1.clone()]), esubst(phi1.clone(), 0, c0.clone()));
    let val = ssubst(phi0.clone(), 0, c0.clone());
    assert_eq!(inst(&val, &[0], &[phi1.clone()]), ssubst(phi1.clone(), 0, c0.clone()));

    // The plug in a subst. needs to be instantiated as well
    let val = ssubst(phi0.clone(), 0, phi0.clone());
    assert_eq!(inst(&val, &[0], &[X0.clone()]), X0);
    let val = ssubst(phi0.clone(), 0, phi1.clone());
    assert_eq!(inst(&val, &[0, 1], &[X0.clone(), c0.clone()]), c0);
}

fn constrained(e_fresh: Vec<u8>, s_fresh: Vec<u8>, positive: Vec<u8>, negative: Vec<u8>) -> Ptr<Pattern> {
    Ptr::new(Pattern::MetaVar {
        id: 0,
        e_fresh,
        s_fresh,
        positive,
        negative,
        app_ctx_holes: vec![],
    })
}

#[test]
fn instantiation_breaking_constraints() {
    let cases = vec![
        (constrained(vec![0], vec![], vec![], vec![]), evar(0)),
        (constrained(vec![], vec![0], vec![], vec![]), svar(0)),
        (constrained(vec![], vec![], vec![0], vec![]), not(svar(0))),
        (constrained(vec![], vec![], vec![], vec![0]), svar(0)),
        (constrained(vec![], vec![], vec![0], vec![0]), svar(0)),
    ];
    for (mv, plug) in cases {
        assert_eq!(instantiate(mv, &[0], &[plug]), Err(CheckError::ConstraintViolated));
    }
    // SVar(0) is both positive and negative in a pattern without it
    let mv = constrained(vec![], vec![], vec![0], vec![0]);
    assert_eq!(instantiate(mv, &[0], &[svar(1)]), Ok(svar(1)));
}

#[test]
fn instantiate_fresh_violation() {
    let phi0_s_fresh_0 = metavar_s_fresh(0, 0, vec![0], vec![0]);
    assert_eq!(
        instantiate(phi0_s_fresh_0, &[0], &[svar(0)]),
        Err(CheckError::ConstraintViolated)
    );
}

#[test]
fn illformed_instantiation_lacks_plug() {
    let phi0 = metavar_unconstrained(0);
    assert_eq!(instantiate(phi0.clone(), &[1, 0], &[phi0]), Err(CheckError::MissingPlug));
}

#[test]
fn instantiate_hole_constraints() {
    let hole = Ptr::new(Pattern::MetaVar {
        id: 0,
        e_fresh: vec![],
        s_fresh: vec![],
        positive: vec![],
        negative: vec![],
        app_ctx_holes: vec![3],
    });
    let ctx = app(symbol(1), evar(3));
    assert_eq!(instantiate(hole.clone(), &[0], &[ctx.clone()]), Ok(ctx));
    assert_eq!(
        instantiate(hole.clone(), &[0], &[app(evar(3), evar(3))]),
        Err(CheckError::ConstraintViolated)
    );
    assert_eq!(
        instantiate(hole, &[0], &[ssubst(metavar_unconstrained(1), 0, symbol(0))]),
        Err(CheckError::HoleUnsupported)
    );
}

#[test]
fn instantiate_hole_plug_past_set_substitution() {
    let hole = Ptr::new(Pattern::MetaVar {
        id: 0,
        e_fresh: vec![],
        s_fresh: vec![],
        positive: vec![],
        negative: vec![],
        app_ctx_holes: vec![0],
    });
    let plug = app(evar(0), ssubst(metavar_e_fresh(1, 0, vec![], vec![]), 1, symbol(0)));
    assert!(plug.well_formed());
    assert_eq!(instantiate(hole, &[0], &[plug.clone()]), Ok(plug));
}

#[test]
fn instantiate_with_itself_is_identity() {
    let phi = metavar_e_fresh(4, 1, vec![2], vec![]);
    let p = pattern::implies(exists_pattern(1, phi.clone()), esubst(phi.clone(), 0, symbol(5)));
    assert_eq!(instantiate(p.clone(), &[4], &[phi]), Ok(p));
}

#[test]
fn test_apply_esubst() {
    let test_cases: Vec<(Ptr<Pattern>, u8, Ptr<Pattern>, Ptr<Pattern>)> = vec![
        // Atomic cases
        (bot(), 0, symbol(1), bot()),
        (evar(0), 0, symbol(1), symbol(1)),
        (evar(0), 0, evar(2), evar(2)),
        (evar(0), 1, evar(2), evar(0)),
        (svar(0), 0, symbol(0), svar(0)),
        (svar(1), 0, evar(0), svar(1)),
        (symbol(0), 0, symbol(1), symbol(0)),
        // Distribute over subpatterns
        (
            pattern::implies(evar(7), symbol(1)),
            7,
            symbol(0),
            pattern::implies(symbol(0), symbol(1)),
        ),
        (
            pattern::implies(evar(7), symbol(1)),
            6,
            symbol(0),
            pattern::implies(evar(7), symbol(1)),
        ),
        (app(evar(7), symbol(1)), 7, symbol(0), app(symbol(0), symbol(1))),
        (app(evar(7), symbol(1)), 6, symbol(0), app(evar(7), symbol(1))),
        // Distribute over subpatterns unless evar_id = binder
        (exists_pattern(1, evar(1)), 0, symbol(2), exists_pattern(1, evar(1))),
        (exists_pattern(0, evar(1)), 1, symbol(2), exists_pattern(0, symbol(2))),
        (mu(1, evar(1)), 0, symbol(2), mu(1, evar(1))),
        (mu(1, evar(1)), 1, symbol(2), mu(1, symbol(2))),
        // Subst on metavar should wrap in constructor
        (
            metavar_unconstrained(0),
            0,
            symbol(1),
            esubst(metavar_unconstrained(0), 0, symbol(1)),
        ),
        // Subst when evar_id is fresh should do nothing
        (
            metavar_e_fresh(0, 0, vec![], vec![]),
            0,
            symbol(1),
            metavar_e_fresh(0, 0, vec![], vec![]),
        ),
        // Subst when evar_id = evar(plug) should do nothing
        (metavar_unconstrained(0), 1, evar(1), metavar_unconstrained(0)),
        // Subst on substs should stack
        (
            esubst(metavar_unconstrained(0), 0, symbol(1)),
            1,
            symbol(1),
            esubst(esubst(metavar_unconstrained(0), 0, symbol(1)), 1, symbol(1)),
        ),
        (
            ssubst(metavar_unconstrained(0), 0, symbol(1)),
            0,
            symbol(1),
            esubst(ssubst(metavar_unconstrained(0), 0, symbol(1)), 0, symbol(1)),
        ),
    ];

    for (pattern, evar_id, plug, expected) in test_cases.iter() {
        let result = apply_esubst(pattern.clone(), *evar_id, plug.clone()).unwrap();
        assert_eq!(result, *expected);
    }
}

#[test]
fn apply_esubst_avoids_capture() {
    assert_eq!(
        apply_esubst(exists_pattern(0, evar(1)), 1, evar(0)),
        Err(CheckError::Capture)
    );
    assert_eq!(apply_esubst(mu(0, evar(1)), 1, svar(0)), Err(CheckError::Capture));
    // the bound variable itself may be substituted for
    assert_eq!(
        apply_esubst(exists_pattern(3, evar(3)), 3, evar(5)),
        Ok(exists_pattern(3, evar(3)))
    );
}

#[test]
fn test_apply_ssubst() {
    let test_cases: Vec<(Ptr<Pattern>, u8, Ptr<Pattern>, Ptr<Pattern>)> = vec![
        // Atomic cases
        (bot(), 0, symbol(1), bot()),
        (evar(0), 0, symbol(1), evar(0)),
        (evar(0), 1, evar(2), evar(0)),
        (svar(0), 0, symbol(0), symbol(0)),
        (svar(1), 0, evar(0), svar(1)),
        (symbol(0), 0, symbol(1), symbol(0)),
        // Distribute over subpatterns
        (
            pattern::implies(svar(7), symbol(1)),
            7,
            symbol(0),
            pattern::implies(symbol(0), symbol(1)),
        ),
        (
            pattern::implies(svar(7), symbol(1)),
            6,
            symbol(0),
            pattern::implies(svar(7), symbol(1)),
        ),
        (app(svar(7), symbol(1)), 7, symbol(0), app(symbol(0), symbol(1))),
        (app(svar(7), symbol(1)), 6, symbol(0), app(svar(7), symbol(1))),
        // Distribute over subpatterns unless svar_id = binder
        (exists_pattern(1, svar(0)), 0, symbol(2), exists_pattern(1, symbol(2))),
        (exists_pattern(1, symbol(1)), 1, symbol(2), exists_pattern(1, symbol(1))),
        (mu(1, svar(1)), 0, symbol(2), mu(1, svar(1))),
        (mu(1, svar(1)), 1, symbol(2), mu(1, svar(1))),
        (mu(1, svar(2)), 2, symbol(2), mu(1, symbol(2))),
        // Subst on metavar should wrap in constructor
        (
            metavar_unconstrained(0),
            0,
            symbol(1),
            ssubst(metavar_unconstrained(0), 0, symbol(1)),
        ),
        // Subst when svar_id is fresh should do nothing
        (
            metavar_s_fresh(0, 0, vec![], vec![]),
            0,
            symbol(1),
            metavar_s_fresh(0, 0, vec![], vec![]),
        ),
        // Subst when svar_id = svar(plug) should do nothing
        (metavar_unconstrained(0), 1, svar(1), metavar_unconstrained(0)),
        // Subst on substs should stack
        (
            esubst(metavar_unconstrained(0), 0, symbol(1)),
            0,
            symbol(1),
            ssubst(esubst(metavar_unconstrained(0), 0, symbol(1)), 0, symbol(1)),
        ),
        (
            ssubst(metavar_unconstrained(0), 0, symbol(1)),
            1,
            symbol(1),
            ssubst(ssubst(metavar_unconstrained(0), 0, symbol(1)), 1, symbol(1)),
        ),
    ];

    for (pattern, svar_id, plug, expected) in test_cases {
        assert_eq!(apply_ssubst(pattern, svar_id, plug).unwrap(), expected);
    }
}

#[test]
fn apply_ssubst_avoids_capture() {
    assert_eq!(
        apply_ssubst(exists_pattern(0, svar(1)), 1, evar(0)),
        Err(CheckError::Capture)
    );
    assert_eq!(apply_ssubst(mu(0, svar(1)), 1, svar(0)), Err(CheckError::Capture));
}

#[test]
fn substitution_identity_and_fresh_noop() {
    let p = pattern::implies(exists_pattern(2, evar(1)), app(evar(1), metavar_unconstrained(0)));
    assert_eq!(apply_esubst(p.clone(), 1, evar(1)), Ok(p.clone()));
    assert_eq!(apply_ssubst(p.clone(), 4, svar(4)), Ok(p.clone()));
    let q = pattern::implies(symbol(3), metavar_e_fresh(0, 9, vec![], vec![]));
    assert_eq!(apply_esubst(q.clone(), 9, symbol(8)), Ok(q));
}
