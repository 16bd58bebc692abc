use std::marker::PhantomData;
use proof_env::env::{ ID, LocalID, Path, Space, SpaceVal, Namespace, LocalNamespace, Env, LocalEnv, EnvData, PushID, PushLocal };
use proof_env::envs::ExpVal;
use proof_env::name_map::NameMap;

fn s(x: &str) -> String {
    x.to_owned()
}

fn path(v: &[&str]) -> Path<String> {
    Path::new(v.iter().map(|x| s(x)).collect())
}

fn names(p: &Path<String>) -> Vec<String> {
    p.as_ref().to_vec()
}

fn ok<T, E: std::fmt::Debug>(r: Result<T, E>) -> T {
    match r {
        Ok(x) => x,
        Err(e) => panic!("unexpected error {:?}", e),
    }
}

fn err_names<T: std::fmt::Debug>(r: Result<T, Path<String>>) -> Vec<String> {
    match r {
        Ok(x) => panic!("unexpected success {:?}", x),
        Err(e) => names(&e),
    }
}

fn normal<T>(i: usize, up: usize) -> ID<T> {
    ID::Normal(i, up, PhantomData)
}

#[test]
fn name_map_insert_replaces() {
    let mut m: NameMap<u32> = NameMap::new();
    m.insert(s("a"), 1);
    m.insert(s("b"), 2);
    m.insert(s("a"), 3);
    assert_eq!(m.len(), 2);
    assert_eq!(m.get(&s("a")), Some(&3));
    assert_eq!(m.get(&s("b")), Some(&2));
    assert_eq!(m.get(&s("c")), None);
    assert_eq!(m.index_of(&s("b")), Some(1));
}

#[test]
fn id_push_and_pop() {
    let id: ID<ExpVal> = normal(3, 2);
    assert_eq!(id.push_id_with_min(1, 5), normal(3, 7));
    assert_eq!(id.push_id_with_min(3, 5), normal(3, 2));
    assert_eq!(id.push_id_with_min(1, 5).pop_id_with_min(1, 5), Some(id));
    assert_eq!(normal::<ExpVal>(3, 1).pop_id_with_min(1, 1), None);
    assert_eq!(normal::<ExpVal>(3, 0).pop_id_with_min(1, 1), Some(normal(3, 0)));
    let p: ID<ExpVal> = ID::Predef(4, PhantomData);
    assert_eq!(p.push_id(9), p);
    assert_eq!(p.pop_id(9), Some(p));
}

#[test]
fn id_set_picks_the_scope() {
    let id: ID<ExpVal> = normal(3, 1);
    assert_eq!(id.set(1), Ok(3));
    assert_eq!(normal::<ExpVal>(3, 2).set(1), Err(normal(3, 1)));
    assert_eq!(normal::<ExpVal>(3, 0).set(1), Err(normal(3, 0)));
    assert_eq!(ID::<ExpVal>::Predef(2, PhantomData).set(0), Err(ID::Predef(2, PhantomData)));
    assert_eq!(ID::<ExpVal>::new(5), normal(5, 0));
}

#[test]
fn id_move_into_pushes_by_distance() {
    let id: ID<ExpVal> = normal(0, 2);
    let inner: ID<ExpVal> = normal(1, 1);
    assert_eq!(id.move_into(&inner), normal(1, 3));
    let p: ID<ExpVal> = ID::Predef(0, PhantomData);
    assert_eq!(p.move_into(&inner), inner);
}

#[test]
fn local_id_push_and_global() {
    let l: LocalID<ExpVal> = LocalID::new(2);
    assert_eq!(l.push_local_with_min(PhantomData, 1, 3), LocalID::new(5));
    assert_eq!(l.push_local_with_min(PhantomData, 3, 3), LocalID::new(2));
    assert_eq!(l.push_local(PhantomData, 1), LocalID::new(3));
    let g: LocalID<ExpVal> = LocalID::from(normal(1, 1));
    assert_eq!(g.push_local(PhantomData, 4), g);
    assert_eq!(g.global(), Ok(normal(1, 1)));
    assert_eq!(l.global(), Err(l));
    assert!(g == normal::<ExpVal>(1, 1));
    assert!(!(l == normal::<ExpVal>(2, 0)));
}

#[test]
fn path_building() {
    let p = Path::new(vec![s("b")]).prepend(s("a")).append(s("c"));
    assert_eq!(names(&p), vec![s("a"), s("b"), s("c")]);
    assert_eq!(p.len(), 3);
    assert_eq!(p.name(), &s("c"));
    let q = Path::single(s("x"));
    assert_eq!(names(&q), vec![s("x")]);
}

#[test]
fn space_get_nested_and_errors() {
    let mut inner: Space<ExpVal> = Space::new(vec![(s("x"), normal(7, 0))]);
    inner.add(&s("y"), SpaceVal::Val(normal(8, 0)));
    let mut space: Space<ExpVal> = Space::new(vec![(s("a"), normal(0, 0)), (s("a"), normal(1, 0))]);
    space.add(&s("m"), SpaceVal::Space(inner));
    match ok(space.get(&[s("a")])) {
        SpaceVal::Val(id) => assert_eq!(*id, normal(1, 0)),
        _ => panic!("expected a value"),
    }
    match ok(space.get(&[s("m"), s("y")])) {
        SpaceVal::Val(id) => assert_eq!(*id, normal(8, 0)),
        _ => panic!("expected a value"),
    }
    assert_eq!(err_names(space.get(&[s("m"), s("z")]).map(|_| ())), vec![s("m"), s("z")]);
    assert_eq!(err_names(space.get(&[s("q"), s("z")]).map(|_| ())), vec![s("q")]);
    assert_eq!(err_names(space.get(&[s("a"), s("z")]).map(|_| ())), vec![s("a")]);
}

#[test]
fn namespace_get_after_add() {
    let mut ns: Namespace<ExpVal> = Namespace::new(vec![], Space::new(vec![(s("pre"), ID::Predef(0, PhantomData))]));
    let x = ns.add(&s("x"));
    let y = ns.add(&s("y"));
    assert_eq!(x, normal(0, 0));
    assert_eq!(y, normal(1, 0));
    assert_eq!(ok(ns.get(&path(&["x"]))), x);
    assert_eq!(ok(ns.get(&path(&["y"]))), y);
    assert_eq!(ok(ns.get(&path(&["pre"]))), ID::Predef(0, PhantomData));
    assert_eq!(err_names(ns.get(&path(&["z"]))), vec![s("z")]);
}

#[test]
fn namespace_alias_names_the_same() {
    let mut ns: Namespace<ExpVal> = Namespace::new(vec![], Space::new(vec![]));
    let x = ns.add(&s("x"));
    assert!(ns.alias(&s("w"), &path(&["x"])).is_ok());
    assert_eq!(ok(ns.get(&path(&["w"]))), x);
    assert_eq!(err_names(ns.alias(&s("v"), &path(&["nothing"]))), vec![s("nothing")]);
    assert_eq!(err_names(ns.get(&path(&["v"]))), vec![s("v")]);
}

#[test]
fn namespace_sub_space_nests_names() {
    let mut ns: Namespace<ExpVal> = Namespace::new(vec![], Space::new(vec![]));
    let y = ns.add(&s("y"));
    let mut sub = ns.sub_space(&s("m"));
    let x = sub.add(&s("x"));
    assert_eq!(x, normal(1, 0));
    assert_eq!(ok(sub.get(&path(&["super", "y"]))), y);
    assert_eq!(err_names(sub.get(&path(&["super", "q"]))), vec![s("super"), s("q")]);
    assert_eq!(err_names(sub.get(&path(&["super", "super", "q"]))), vec![s("super"), s("super")]);
    ns.end_sub_space(sub);
    assert_eq!(ok(ns.get(&path(&["m", "x"]))), x);
    assert_eq!(err_names(ns.get(&path(&["m"]))), vec![s("m")]);
    assert_eq!(err_names(ns.get(&path(&["m", "z"]))), vec![s("m"), s("z")]);
    assert_eq!(err_names(ns.get(&path(&["n", "z"]))), vec![s("n")]);
}

#[test]
fn namespace_scope_falls_through_one_up() {
    let mut ns: Namespace<ExpVal> = Namespace::new(vec![], Space::new(vec![]));
    let _x = ns.add(&s("x"));
    let child = ns.scope(vec![], vec![s("a"), s("b"), s("a")]);
    assert_eq!(ok(child.get(&path(&["b"]))), normal(1, 0));
    assert_eq!(ok(child.get(&path(&["a"]))), normal(2, 0));
    assert_eq!(ok(child.get(&path(&["x"]))), normal(0, 1));
    let empty = child.scope_empty(vec![]);
    assert_eq!(ok(empty.get(&path(&["x"]))), normal(0, 2));
    assert_eq!(ok(empty.get(&path(&["b"]))), normal(1, 1));
}

#[test]
fn local_namespace_scope_binds() {
    let mut ns: Namespace<ExpVal> = Namespace::new(vec![], Space::new(vec![]));
    let x = ns.add(&s("x"));
    let base = LocalNamespace::new(&ns);
    let l1 = base.scope(vec![s("u"), s("v")]);
    let l2 = l1.scope_empty();
    let l3 = l2.scope(vec![s("w")]);
    assert_eq!(ok(l3.get(&path(&["w"]))), LocalID::new(0));
    assert_eq!(ok(l3.get(&path(&["v"]))), LocalID::new(2));
    assert_eq!(ok(l3.get(&path(&["u"]))), LocalID::new(1));
    assert_eq!(ok(l3.get(&path(&["x"]))), LocalID::Global(x));
    assert_eq!(err_names(l3.get(&path(&["nope"]))), vec![s("nope")]);
}

#[test]
fn env_index_after_add_and_in_scope() {
    let mut env: Env<u32> = Env::new(vec![10, 20]);
    let a = env.add(30);
    assert_eq!(a, normal(0, 0));
    assert_eq!(env.len(), 1);
    assert_eq!(*env.index(ID::Predef(1, PhantomData)), 20);
    assert_eq!(*env.index(a), 30);
    *env.index_mut(a) = 31;
    assert_eq!(*env.index(a), 31);
    let inner = env.scope(vec![40, 50]);
    assert_eq!(*inner.index(normal(1, 0)), 50);
    assert_eq!(*inner.index(normal(0, 1)), 31);
    assert_eq!(*inner.index(ID::Predef(0, PhantomData)), 10);
    assert_eq!(inner.len(), 2);
}

#[test]
fn local_env_index() {
    let mut env: Env<u32> = Env::new(vec![10]);
    let a = env.add(30);
    let base = LocalEnv::new(&env);
    let l1 = base.scope(vec![1, 2]);
    let l2 = l1.scope(vec![3]);
    assert_eq!(*l2.index(LocalID::new(0)), 3);
    assert_eq!(*l2.index(LocalID::new(1)), 1);
    assert_eq!(*l2.index(LocalID::new(2)), 2);
    assert_eq!(*l2.index(LocalID::Global(a)), 30);
    assert_eq!(*l2.index(LocalID::Global(ID::Predef(0, PhantomData))), 10);
}

#[test]
fn env_data_get_after_add() {
    let mut d: EnvData<u32> = EnvData::new(vec![7]);
    let a = d.add(8);
    let b = d.add(9);
    assert_eq!(a, normal(0, 0));
    assert_eq!(b, normal(1, 0));
    assert_eq!(*d.get(b), 9);
    assert_eq!(*d.get(ID::Predef(0, PhantomData)), 7);
    *d.get_mut(a) = 80;
    assert_eq!(*d.get(a), 80);
    assert_eq!(d.len(), 2);
    assert_eq!(*d.index(0), 80);
}

#[test]
fn path_to_string_joins_names() {
    assert_eq!(path(&["a", "b", "c"]).to_string(), "a::b::c");
    assert_eq!(path(&["x"]).to_string(), "x");
    assert_eq!(Path::<String>::new(vec![]).to_string(), "");
}

#[test]
fn namespace_nested_modules_and_super() {
    let mut ns: Namespace<ExpVal> = Namespace::new(vec![], Space::new(vec![]));
    let y = ns.add(&s("y"));
    let mut m1 = ns.sub_space(&s("m1"));
    let z = m1.add(&s("z"));
    let mut m2 = m1.sub_space(&s("m2"));
    assert_eq!(ok(m2.get(&path(&["super", "z"]))), z);
    assert_eq!(err_names(m2.get(&path(&["super", "y"]))), vec![s("super"), s("y")]);
    // Later `super`s are looked up as names in the module reached.
    assert_eq!(err_names(m2.get(&path(&["super", "super", "y"]))), vec![s("super"), s("super"), s("super")]);
    let w = m2.add(&s("w"));
    m1.end_sub_space(m2);
    ns.end_sub_space(m1);
    assert_eq!(ok(ns.get(&path(&["m1", "m2", "w"]))), w);
    assert_eq!(ok(ns.get(&path(&["m1", "z"]))), z);
    assert_eq!(ok(ns.get(&path(&["y"]))), y);
    assert_eq!((y, z, w), (normal(0, 0), normal(1, 0), normal(2, 0)));
}

#[test]
fn predefined_ids_pop_from_any_scope() {
    let p: ID<ExpVal> = ID::Predef(4, PhantomData);
    assert_eq!(p.pop_id_with_min(usize::MAX, 5), Some(p));
    assert_eq!(p.pop_id_with_min(usize::MAX - 1, usize::MAX), Some(p));
    let v: Vec<ID<ExpVal>> = vec![p, ID::Predef(1, PhantomData)];
    assert_eq!(v.pop_id_with_min(usize::MAX, usize::MAX), Some(v.clone()));
}

#[test]
fn namespace_scope_longer_path_falls_through() {
    let mut ns: Namespace<ExpVal> = Namespace::new(vec![], Space::new(vec![]));
    let mut sub = ns.sub_space(&s("a"));
    let x = sub.add(&s("x"));
    ns.end_sub_space(sub);
    let child = ns.scope(vec![], vec![s("a")]);
    assert_eq!(ok(child.get(&path(&["a"]))), normal(0, 0));
    assert_eq!(ok(child.get(&path(&["a", "x"]))), x.push_id(1));
}
