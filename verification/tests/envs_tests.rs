use std::marker::PhantomData;
use proof_env::env::{ ID, LocalID, Path, LocalNamespace, LocalEnv };
use proof_env::envs::{ ExpVal, TypeVal, TruthVal, NameData, Namespaces, LocalNamespaces, Envs, EnvData, LocalEnvs, EnvsData };
use proof_env::id::{ Type, Exp };
use proof_env::ast::ErrAst;
use proof_env::named_env;

fn s(x: &str) -> String {
    x.to_owned()
}

fn path(v: &[&str]) -> Path<String> {
    Path::new(v.iter().map(|x| s(x)).collect())
}

fn normal<T>(i: usize, up: usize) -> ID<T> {
    ID::Normal(i, up, PhantomData)
}

fn unit() -> Type {
    Type::Tuple(vec![])
}

fn undefined<T: std::fmt::Debug>(r: Result<T, ErrAst<String>>) -> Vec<String> {
    match r {
        Err(ErrAst::UndefinedPath(p)) => p.as_ref().to_vec(),
        r => panic!("expected an undefined path, got {:?}", r),
    }
}

fn sample() -> Namespaces<'static> {
    Namespaces::new(
        NameData::new(),
        vec![(s("Nat"), ID::Predef(0, PhantomData))],
        vec![(s("zero"), ID::Predef(0, PhantomData)), (s("succ"), ID::Predef(1, PhantomData))],
        vec![(s("refl"), ID::Predef(0, PhantomData))],
    )
}

#[test]
fn namespaces_get_each_kind() {
    let ns = sample();
    assert_eq!(ns.get_type(&path(&["Nat"])).unwrap(), ID::Predef(0, PhantomData));
    assert_eq!(ns.get_exp(&path(&["succ"])).unwrap(), ID::Predef(1, PhantomData));
    assert_eq!(ns.get_truth(&path(&["refl"])).unwrap(), ID::Predef(0, PhantomData));
}

#[test]
fn namespaces_get_errors() {
    let ns = sample();
    match ns.get_type(&path(&["zero"])) {
        Err(ErrAst::UnknownType(p)) => assert_eq!(p.as_ref().to_vec(), vec![s("zero")]),
        r => panic!("unexpected {:?}", r),
    }
    match ns.get_exp(&path(&["Nat"])) {
        Err(ErrAst::UnknownVar(p)) => assert_eq!(p.as_ref().to_vec(), vec![s("Nat")]),
        r => panic!("unexpected {:?}", r),
    }
    match ns.get_truth(&path(&["zero"])) {
        Err(ErrAst::UnknownTruth(p)) => assert_eq!(p.as_ref().to_vec(), vec![s("zero")]),
        r => panic!("unexpected {:?}", r),
    }
    assert_eq!(undefined(ns.get_exp(&path(&["m", "x"]))), vec![s("m")]);
}

#[test]
fn namespaces_alias_any_kind() {
    let mut ns = sample();
    assert!(ns.alias(&s("s"), &path(&["succ"])).is_ok());
    assert_eq!(ns.get_exp(&path(&["s"])).unwrap(), ID::Predef(1, PhantomData));
    assert!(ns.get_type(&path(&["s"])).is_err());
    match ns.alias(&s("q"), &path(&["nothing"])) {
        Err(p) => assert_eq!(p.as_ref().to_vec(), vec![s("nothing")]),
        Ok(()) => panic!("alias of nothing succeeded"),
    }
}

#[test]
fn namespaces_alias_failure_reports_longest() {
    let mut ns = sample();
    let mut sub = ns.sub_space(&s("m"));
    let x = sub.exps.add(&s("x"));
    ns.end_sub_space(sub);
    assert_eq!(ns.get_exp(&path(&["m", "x"])).unwrap(), x);
    match ns.alias(&s("y"), &path(&["m", "z"])) {
        Err(p) => assert_eq!(p.as_ref().to_vec(), vec![s("m"), s("z")]),
        Ok(()) => panic!("alias of nothing succeeded"),
    }
    assert!(ns.alias(&s("y"), &path(&["m", "x"])).is_ok());
    assert_eq!(ns.get_exp(&path(&["y"])).unwrap(), x);
}

#[test]
fn namespaces_scopes() {
    let ns = sample();
    let inner = ns.scope_exp(NameData::new(), vec![s("a"), s("b")]);
    assert_eq!(inner.get_exp(&path(&["b"])).unwrap(), normal(1, 0));
    assert_eq!(inner.get_exp(&path(&["zero"])).unwrap(), ID::Predef(0, PhantomData));
    let tys = inner.scope_type(NameData::new(), vec![s("T")]);
    assert_eq!(tys.get_type(&path(&["T"])).unwrap(), normal(0, 0));
    assert_eq!(tys.get_exp(&path(&["a"])).unwrap(), normal(0, 1));
    let truths = tys.scope_truth(NameData::new(), vec![s("h")]);
    assert_eq!(truths.get_truth(&path(&["h"])).unwrap(), normal(0, 0));
    assert_eq!(truths.get_type(&path(&["T"])).unwrap(), normal(0, 1));
    let empty = truths.scope_empty(NameData::new());
    assert_eq!(empty.get_exp(&path(&["a"])).unwrap(), normal(0, 3));
}

#[test]
fn local_namespaces_scopes() {
    let ns = sample();
    let base = LocalNamespaces {
        types: LocalNamespace::new(&ns.types),
        exps: LocalNamespace::new(&ns.exps),
        truths: LocalNamespace::new(&ns.truths),
    };
    let l1 = base.scope_exp(vec![s("v")]);
    let l2 = l1.scope_type(vec![s("T")]);
    let l3 = l2.scope_truth(vec![s("h")]);
    assert_eq!(l3.get_exp(&path(&["v"])).unwrap(), LocalID::new(0));
    assert_eq!(l3.get_exp(&path(&["zero"])).unwrap(), LocalID::Global(ID::Predef(0, PhantomData)));
    assert_eq!(l3.get_type(&path(&["T"])).unwrap(), LocalID::new(0));
    assert_eq!(l3.get_truth(&path(&["h"])).unwrap(), LocalID::new(0));
    match l3.get_type(&path(&["v"])) {
        Err(ErrAst::UnknownType(p)) => assert_eq!(p.as_ref().to_vec(), vec![s("v")]),
        r => panic!("unexpected {:?}", r),
    }
    match l3.get_truth(&path(&["v"])) {
        Err(ErrAst::UnknownTruth(p)) => assert_eq!(p.as_ref().to_vec(), vec![s("v")]),
        r => panic!("unexpected {:?}", r),
    }
    assert_eq!(undefined(l3.get_exp(&path(&["m", "v"]))), vec![s("m")]);
}

#[test]
fn envs_scopes_and_lens() {
    let data = EnvData {
        types: vec![TypeVal::new(vec![])],
        exps: vec![],
        truths: vec![],
    };
    let mut envs = Envs::new(data);
    let e = envs.exp.add(ExpVal::new_empty(unit(), 0));
    assert_eq!(e, normal(0, 0));
    assert_eq!(envs.lens(), (0, 1, 0));
    let inner = envs.scope_exp(vec![ExpVal::new_empty(unit(), 0), ExpVal::new_empty(unit(), 0)]);
    assert_eq!(inner.lens(), (0, 2, 0));
    let t = inner.scope_ty(vec![TypeVal::new(vec![])]);
    assert_eq!(t.lens(), (1, 0, 0));
    let p = t.scope_truth(vec![TruthVal::new(Exp::Tuple(vec![]), 0)]);
    assert_eq!(p.lens(), (0, 0, 1));
    assert_eq!(p.scope_empty().lens(), (0, 0, 0));
    assert_eq!(p.ty.index(ID::Predef(0, PhantomData)).gen().len(), 0);
}

#[test]
fn local_envs_scopes() {
    let data = EnvData { types: vec![], exps: vec![], truths: vec![] };
    let envs = Envs::new(data);
    let base = LocalEnvs {
        ty: LocalEnv::new(&envs.ty),
        exp: LocalEnv::new(&envs.exp),
        truth: LocalEnv::new(&envs.truth),
    };
    let l1 = base.scope_exp(vec![ExpVal::new_empty(unit(), 7)]);
    let l2 = l1.scope_ty(vec![TypeVal::new(vec![])]);
    let l3 = l2.scope_truth(vec![]);
    assert_eq!(format!("{:?}", l3.exp.index(LocalID::new(0))), format!("{:?}", ExpVal::new_empty(unit(), 7)));
    assert_eq!(l3.ty.index(LocalID::new(0)).gen().len(), 0);
}

#[test]
fn envs_data_lens() {
    let mut d = EnvsData::new(vec![], vec![TypeVal::new(vec![])], vec![]);
    assert_eq!(d.lens(), (0, 0, 0));
    d.exps.add(ExpVal::new_empty(unit(), 0));
    d.truths.add(TruthVal::new(Exp::Tuple(vec![]), 0));
    assert_eq!(d.lens(), (1, 0, 1));
}

#[test]
fn named_env_get_of_get_id() {
    let mut v: Vec<u32> = vec![];
    let mut env = named_env::Env::new(&mut v);
    let a = env.add(s("a"), 10);
    let b = env.add(s("b"), 20);
    env.alias(s("c"), a);
    assert_eq!((a, b), (0, 1));
    assert_eq!(env.get_id(&s("c")), Some(&0));
    assert_eq!(env.get(1), Some(&20));
    assert_eq!(env.get(2), None);
    if let Some(x) = env.get_mut(0) {
        *x = 11;
    }
    let local = env.local();
    let l1 = local.scope(vec![(s("x"), 5), (s("y"), 6)]);
    let l2 = l1.scope_anon(vec![7]);
    let y = l2.get_id(&s("y")).unwrap();
    assert_eq!(y, named_env::LocalID::Local(2, PhantomData));
    assert_eq!(l2.get(y), Some(&6));
    let c = l2.get_id(&s("c")).unwrap();
    assert_eq!(l2.get(c), Some(&11));
    assert_eq!(l2.get_id(&s("z")), None);
}

#[test]
fn named_envs_scopes() {
    let mut exps: Vec<named_env::envs::ExpVal> = vec![named_env::envs::ExpVal::new(Exp::Tuple(vec![]), unit())];
    let mut tys: Vec<named_env::envs::TypeVal> = vec![];
    let envs = named_env::Envs::new(&mut exps, &mut tys);
    let local = envs.local();
    let l1 = local.scope(vec![(s("a"), named_env::envs::ExpVal::new_empty(unit()))]);
    let l2 = l1.scope_ty(vec![(s("T"), named_env::envs::TypeVal::new(vec![]))]);
    let l3 = l2.scope_anon(vec![]);
    let l4 = l3.scope_ty_anon(vec![]);
    let a = l4.exp.get_id(&s("a")).unwrap();
    assert!(l4.exp.get(a).unwrap().val().is_none());
    let t = l4.ty.get_id(&s("T")).unwrap();
    let mut tv = named_env::envs::TypeVal::new(vec![]);
    tv.push_atom(named_env::ID::new(3));
    assert!(tv.contains_atom(&named_env::ID::new(3)));
    assert!(!tv.contains_comp(&named_env::ID::new(3)));
    assert!(l4.ty.get(t).is_some());
}

#[test]
fn named_env_scope_keeps_elements_not_names() {
    let mut v: Vec<u32> = vec![];
    let mut env = named_env::Env::new(&mut v);
    env.add(s("a"), 1);
    let k = {
        let mut inner = env.scope();
        let k = inner.add(s("b"), 2);
        inner.alias(s("c"), 0);
        k
    };
    assert_eq!(env.get(k), Some(&2));
    assert_eq!(env.get_id(&s("b")), None);
    assert_eq!(env.get_id(&s("c")), None);
    assert_eq!(env.get_id(&s("a")), Some(&0));
}

#[test]
fn accessors_give_back_data() {
    let mut ns = sample();
    let mut sub = ns.sub_space(&s("m"));
    sub.exps.add(&s("x"));
    sub.types.add(&s("T"));
    ns.end_sub_space(sub);
    ns.truths.add(&s("h"));
    let d = ns.into_data();
    let mut scoped = sample().scope_exp(d, vec![s("y")]).into_data();
    let back = Namespaces::new(scoped, vec![], vec![], vec![]);
    assert_eq!(back.exps.paths().len(), 1);
    assert_eq!(back.exps.paths()[0].to_string(), "m::x");
    assert_eq!(back.types.paths()[0].to_string(), "m::T");
    assert_eq!(back.truths.into_paths()[0].to_string(), "h");
    scoped = NameData::new();
    assert!(Namespaces::new(scoped, vec![], vec![], vec![]).exps.paths().is_empty());
    let mut envs = Envs::new(EnvData { types: vec![], exps: vec![ExpVal::new_empty(unit(), 0)], truths: vec![] });
    *envs.exp.index_mut(ID::Predef(0, PhantomData)) = ExpVal::new_empty(unit(), 3);
    assert!(envs.scope_empty().into_data().is_none());
    let data = envs.into_data().unwrap();
    assert_eq!(data.exps[0], ExpVal::new_empty(unit(), 3));
    assert_eq!(envs_predef_len(), 1);
}

fn envs_predef_len() -> usize {
    let env: proof_env::env::Env<u32> = proof_env::env::Env::new(vec![4]);
    assert_eq!(env.scope(vec![]).predef(), &vec![4]);
    env.predef().len()
}
