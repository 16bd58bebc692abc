use std::fmt::Debug;
use std::marker::PhantomData;
use proof_env::env::{ ID, LocalID, PushID, PushLocal };
use proof_env::envs::{ ExpVal, TypeVal, TruthVal };
use proof_env::id::{ Type, Pattern, Exp, SetLocal, ErrID, RefType, TruthRef, Direction };
use proof_env::ast::ErrAst;
use proof_env::variance::Variance;

fn same<T: Debug>(a: &T, b: &T) {
    assert_eq!(format!("{:?}", a), format!("{:?}", b));
}

fn normal<T>(i: usize, up: usize) -> ID<T> {
    ID::Normal(i, up, PhantomData)
}

fn tvar(i: usize, up: usize) -> Type {
    Type::Gen(normal(i, up), vec![])
}

fn unit() -> Type {
    Type::Tuple(vec![])
}

fn local(i: usize) -> Exp {
    Exp::Var(LocalID::new(i), vec![])
}

fn global(id: ID<ExpVal>) -> Exp {
    Exp::Var(LocalID::Global(id), vec![])
}

#[test]
fn type_push_moves_outer_identifiers() {
    let t = Type::Gen(normal(0, 1), vec![tvar(2, 0), Type::Tuple(vec![tvar(3, 4)]), Type::Gen(ID::Predef(1, PhantomData), vec![])]);
    let pushed = t.push_id_with_min(1, 2);
    same(&pushed, &Type::Gen(normal(0, 3), vec![tvar(2, 0), Type::Tuple(vec![tvar(3, 6)]), Type::Gen(ID::Predef(1, PhantomData), vec![])]));
    same(&pushed.pop_id_with_min(1, 2), &Some(t.clone()));
    same(&tvar(0, 1).pop_id_with_min(1, 1), &None);
    same(&t.push_id(0), &t);
}

#[test]
fn type_set_substitutes_the_scope() {
    let par = vec![unit(), tvar(5, 0)];
    let t = Type::Gen(normal(9, 2), vec![tvar(0, 1), tvar(1, 1), tvar(4, 0), tvar(7, 3)]);
    let r = t.set_with_min(1, &par);
    same(&r, &Type::Gen(normal(9, 1), vec![unit(), tvar(5, 1), tvar(4, 0), tvar(7, 2)]));
    let g = Type::Gen(normal(1, 0), vec![unit()]);
    same(&g.set(&par), &tvar(5, 0));
}

#[test]
fn type_set_undoes_push() {
    let t = Type::Tuple(vec![tvar(0, 0), tvar(2, 3), Type::Gen(normal(1, 1), vec![tvar(0, 2)])]);
    let par = vec![unit()];
    same(&t.push_id_with_min(1, 1).set_with_min(1, &par), &t);
    same(&t.push_id(1).set(&par), &t);
}

#[test]
fn variance_type_pair_push() {
    let p = (Variance::Covariant, tvar(0, 0));
    let q = p.push_id(2);
    assert_eq!(q.0, Variance::Covariant);
    same(&q.1, &tvar(0, 2));
    same(&q.pop_id(2), &Some(p));
}

fn sample_pattern() -> Pattern {
    Pattern::Tuple(vec![
        Pattern::Var(tvar(0, 0)),
        Pattern::Atom(normal(3, 0), vec![]),
        Pattern::Comp(normal(4, 1), vec![tvar(1, 1)], Box::new(Pattern::Var(unit()))),
    ])
}

#[test]
fn pattern_bounds_and_bound() {
    let p = sample_pattern();
    assert_eq!(p.bounds(), 2);
    assert_eq!(Pattern::Atom(normal(0, 0), vec![]).bounds(), 0);
    let b = p.bound();
    assert_eq!(b.len(), 2);
    same(&b[0], &ExpVal::new_empty(tvar(0, 1), 0));
    same(&b[1], &ExpVal::new_empty(unit(), 0));
}

#[test]
fn pattern_to_exp_numbers_variables() {
    let p = sample_pattern();
    let e = p.to_exp(5);
    same(&e, &Exp::Tuple(vec![
        global(normal(5, 0)),
        global(normal(3, 0)),
        Exp::Call(Box::new(Exp::Var(LocalID::Global(normal(4, 1)), vec![tvar(1, 1)])), Box::new(global(normal(6, 0)))),
    ]));
}

#[test]
fn pattern_push_and_pop() {
    let p = sample_pattern();
    let q = p.push_id_with_min(1, 1);
    same(&q, &Pattern::Tuple(vec![
        Pattern::Var(tvar(0, 0)),
        Pattern::Atom(normal(3, 0), vec![]),
        Pattern::Comp(normal(4, 2), vec![tvar(1, 2)], Box::new(Pattern::Var(unit()))),
    ]));
    same(&q.pop_id_with_min(1, 1), &Some(p.clone()));
    same(&p.pop_id_with_min(1, 1), &None);
}

#[test]
fn pattern_set_types_and_expressions() {
    let p = Pattern::Comp(normal(4, 2), vec![tvar(0, 1)], Box::new(Pattern::Var(tvar(1, 1))));
    let par = vec![unit(), tvar(8, 0)];
    let r = SetLocal::<Type>::set_with_min(&p, 1, &par);
    same(&r, &Pattern::Comp(normal(4, 1), vec![unit()], Box::new(Pattern::Var(tvar(8, 1)))));
    let q = Pattern::Atom(normal(2, 3), vec![tvar(0, 2)]);
    let es: Vec<Exp> = vec![];
    same(&SetLocal::<Exp>::set_with_min(&q, 1, &es), &Pattern::Atom(normal(2, 2), vec![tvar(0, 1)]));
}

#[test]
fn exp_push_local_respects_binders() {
    let e = Exp::Tuple(vec![
        local(0),
        local(3),
        Exp::Lambda(Pattern::Var(unit()), Box::new(Exp::Call(Box::new(local(0)), Box::new(local(2))))),
        Exp::Match(Box::new(local(1)), vec![(Pattern::Tuple(vec![Pattern::Var(unit()), Pattern::Var(unit())]), local(2))]),
        global(normal(0, 0)),
    ]);
    let r = e.push_local_with_min(PhantomData, 1, 10);
    same(&r, &Exp::Tuple(vec![
        local(0),
        local(13),
        Exp::Lambda(Pattern::Var(unit()), Box::new(Exp::Call(Box::new(local(0)), Box::new(local(12))))),
        Exp::Match(Box::new(local(11)), vec![(Pattern::Tuple(vec![Pattern::Var(unit()), Pattern::Var(unit())]), local(2))]),
        global(normal(0, 0)),
    ]));
}

#[test]
fn exp_set_replaces_innermost_bindings() {
    let par = vec![global(normal(9, 0)), local(0)];
    same(&local(0).set(&par), &global(normal(9, 0)));
    same(&local(1).set(&par), &local(0));
    same(&local(4).set(&par), &local(2));
    let lam = Exp::Lambda(Pattern::Var(unit()), Box::new(Exp::Tuple(vec![local(0), local(1), local(2), local(3)])));
    same(&lam.set(&par), &Exp::Lambda(Pattern::Var(unit()), Box::new(Exp::Tuple(vec![local(0), global(normal(9, 0)), local(1), local(1)]))));
}

#[test]
fn exp_set_undoes_push_local() {
    let e = Exp::Call(
        Box::new(Exp::Lambda(Pattern::Var(unit()), Box::new(Exp::Tuple(vec![local(0), local(1)])))),
        Box::new(Exp::Match(Box::new(local(2)), vec![(Pattern::Var(unit()), local(1))])),
    );
    let par = vec![global(normal(1, 0)), global(normal(2, 0)), local(7)];
    same(&e.push_local(PhantomData, 3).set(&par), &e);
}

#[test]
fn exp_val_type_and_value() {
    let mut v = ExpVal::new_empty(Type::Gen(normal(0, 0), vec![]), 1);
    same(&v.ty(&[unit()]), &unit());
    v.set_val(local(0));
    same(&v, &ExpVal::new(local(0), Type::Gen(normal(0, 0), vec![]), 1));
}

#[test]
fn type_val_constructors_seen_from_below() {
    let mut t = TypeVal::new(vec![]);
    t.push_atom(normal(3, 1));
    t.push_comp(normal(4, 0));
    assert!(t.gen().is_empty());
    assert!(t.contains_atom(normal(0, 2), &normal(3, 3)));
    assert!(!t.contains_atom(normal(0, 2), &normal(3, 1)));
    assert!(!t.contains_atom(normal(0, 3), &normal(3, 1)));
    assert!(t.contains_comp(normal(0, 1), &normal(4, 1)));
    assert!(!t.contains_comp(normal(0, 1), &normal(3, 2)));
    let mut p = TypeVal::new(vec![]);
    p.push_atom(ID::Predef(2, PhantomData));
    assert!(p.contains_atom(ID::Predef(0, PhantomData), &ID::Predef(2, PhantomData)));
    assert!(!p.contains_atom(normal(0, 0), &ID::Predef(2, PhantomData)));
}

#[test]
fn errors_convert() {
    match ErrID::from(normal::<ExpVal>(1, 0)) {
        ErrID::UnknownExpID(id) => assert_eq!(id, normal(1, 0)),
        e => panic!("unexpected {:?}", e),
    }
    match ErrID::from(normal::<TypeVal>(2, 0)) {
        ErrID::UnknownTypeID(id) => assert_eq!(id, normal(2, 0)),
        e => panic!("unexpected {:?}", e),
    }
    match ErrID::from(normal::<TruthVal>(3, 0)) {
        ErrID::UnknownTruthID(id) => assert_eq!(id, normal(3, 0)),
        e => panic!("unexpected {:?}", e),
    }
    match ErrAst::<String>::from(ErrID::NotContained) {
        ErrAst::ErrID(ErrID::NotContained) => {},
        e => panic!("unexpected {:?}", e),
    }
}

#[test]
fn truth_values() {
    let t = TruthVal::new(local(0), 2);
    same(&t, &TruthVal::new(local(0), 2));
    let r = TruthRef::new(RefType::Def, vec![unit()], Some(local(1)));
    same(&r.clone(), &r);
    assert_eq!(RefType::Ref(normal(0, 0)), RefType::Ref(normal(0, 0)));
    assert!(Direction::Forwards != Direction::Backwards);
}

#[test]
fn structural_equality() {
    assert_eq!(tvar(1, 2), tvar(1, 2));
    assert!(tvar(1, 2) != tvar(1, 3));
    assert_eq!(sample_pattern(), sample_pattern().clone());
    assert_eq!(local(3).set(&[unit_exp()]), local(2));
    assert_eq!(ErrID::NoMatch(local(0)), ErrID::NoMatch(local(0)));
    assert!(ErrID::NotContained != ErrID::GenericAmount(1, 2));
}

fn unit_exp() -> Exp {
    Exp::Tuple(vec![])
}

#[test]
fn predefined_types_pop_from_any_scope() {
    let t = Type::Gen(ID::Predef(0, PhantomData), vec![Type::Tuple(vec![Type::Gen(ID::Predef(1, PhantomData), vec![])])]);
    assert_eq!(t.pop_id_with_min(usize::MAX, usize::MAX), Some(t.clone()));
    let p = Pattern::Atom(ID::Predef(2, PhantomData), vec![t.clone()]);
    assert_eq!(p.pop_id_with_min(usize::MAX, 1), Some(p.clone()));
}
